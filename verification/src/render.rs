//! The scene-tree traversal: a read-only, depth-first, pre-order walk of the
//! shape store that turns the tree into an ordered list of canvas
//! operations.
//!
//! For each visited shape the walk saves the canvas transform, composes the
//! shape's matrix onto it, paints every fill over the shape's rectangle in
//! list order, recurses into the children in stored order, and restores the
//! saved transform before the next sibling. A child identifier with no shape
//! under it is skipped. A child identifier that is already on the path from
//! the root to the current shape closes a cycle; a well-formed scene never
//! holds one, and the walk cuts it there instead of descending forever. The `rotation` attribute is deliberately not folded into the
//! composed transform: the call protocol leaves its interaction with the
//! matrix to the host, so the walk forwards only the matrix.
//!
//! The operations are plain data. The host replays them against a real
//! canvas; the spec-level [`CanvasModel`] interpreter in this module pins
//! down what the replay does to the canvas transform stack, and the proofs
//! about it state the save/restore discipline.

use crate::ident::ShapeId;
use crate::shapes::Fill;
use crate::shapes::Matrix;
use crate::shapes::Rect;
use crate::shapes::Shape;
use crate::shapes::ShapeView;
use crate::state::State;
use crate::state::store_view;
use std::collections::HashMap;
use vstd::prelude::*;
use vstd::set_lib::lemma_len_subset;

verus! {

broadcast use {vstd::std_specs::hash::group_hash_axioms, vstd::seq_lib::group_seq_lib_default};

/// One operation against the drawing canvas, in the order the traversal
/// issues them. `Scale`, `Translate` and the fields of `Concat` and
/// `FillRect` carry single-precision bit patterns; `Clear` wipes the surface
/// to transparent; `Flush` submits the frame to the graphics queue.
#[derive(Clone, Copy, PartialEq, Eq, Structural, Debug)]
pub enum CanvasOp {
    Clear,
    ResetMatrix,
    Scale { sx: u32, sy: u32 },
    Translate { dx: u32, dy: u32 },
    Save,
    Concat { matrix: Matrix },
    FillRect { rect: Rect, fill: Fill },
    Restore,
    Flush,
}

/// One paint operation per fill, in list order, each covering the shape's
/// rectangle.
pub open spec fn fill_ops(rect: Rect, fills: Seq<Fill>) -> Seq<CanvasOp> {
    fills.map_values(|fill: Fill| CanvasOp::FillRect { rect, fill })
}

/// Whether the traversal bookkeeping is consistent: the set of identifiers
/// on the path from the root to the current shape is finite and every one of
/// them names a stored shape.
pub open spec fn path_ok(shapes: Map<u128, ShapeView>, path: Set<u128>) -> bool {
    &&& shapes.dom().finite()
    &&& path.finite()
    &&& path.subset_of(shapes.dom())
}

/// The operations issued for the stored shape `id`: save the transform,
/// compose the shape's matrix, paint the fills, walk the children, restore.
/// `path` holds the identifiers of the shapes the walk is currently inside
/// of; a child leading back into it is cut.
pub open spec fn shape_ops(shapes: Map<u128, ShapeView>, id: u128, path: Set<u128>) -> Seq<CanvasOp>
    decreases shapes.dom().len() - path.len(), 0nat, 0nat
        when path_ok(shapes, path) && shapes.dom().contains(id) && !path.contains(id)
        via shape_ops_decreases
{
    seq![CanvasOp::Save, CanvasOp::Concat { matrix: shapes[id].transform }] + fill_ops(
        shapes[id].selrect,
        shapes[id].fills,
    ) + children_ops(shapes, shapes[id].children, path.insert(id)) + seq![CanvasOp::Restore]
}

#[via_fn]
proof fn shape_ops_decreases(shapes: Map<u128, ShapeView>, id: u128, path: Set<u128>) {
    lemma_len_subset(path.insert(id), shapes.dom());
}

/// The operations issued for one child identifier: those of its shape when
/// one is stored and the walk is not already inside it, nothing otherwise.
pub open spec fn child_ops(shapes: Map<u128, ShapeView>, id: u128, path: Set<u128>) -> Seq<CanvasOp>
    decreases shapes.dom().len() - path.len(), 1nat, 0nat
        when path_ok(shapes, path)
{
    if shapes.dom().contains(id) && !path.contains(id) {
        shape_ops(shapes, id, path)
    } else {
        Seq::empty()
    }
}

/// The operations issued for a child list, in stored order.
pub open spec fn children_ops(
    shapes: Map<u128, ShapeView>,
    children: Seq<u128>,
    path: Set<u128>,
) -> Seq<CanvasOp>
    decreases shapes.dom().len() - path.len(), 2nat, children.len()
        when path_ok(shapes, path)
{
    if children.len() == 0 {
        Seq::empty()
    } else {
        child_ops(shapes, children.first(), path) + children_ops(
            shapes,
            children.drop_first(),
            path,
        )
    }
}

/// The operations of a whole traversal from `root`: those of the root's
/// shape when one is stored, nothing otherwise.
pub open spec fn root_ops(shapes: Map<u128, ShapeView>, root: u128) -> Seq<CanvasOp> {
    child_ops(shapes, root, Set::empty())
}

/// A child list grows at the end: the operations of the longer list are
/// those of the shorter one followed by the new child's block.
pub proof fn lemma_children_ops_snoc(
    shapes: Map<u128, ShapeView>,
    children: Seq<u128>,
    id: u128,
    path: Set<u128>,
)
    requires
        path_ok(shapes, path),
    ensures
        children_ops(shapes, children.push(id), path) == children_ops(shapes, children, path)
            + child_ops(shapes, id, path),
    decreases children.len(),
{
    if children.len() == 0 {
        assert(children.push(id).first() == id);
        assert(children.push(id).drop_first() =~= Seq::<u128>::empty());
        assert(children_ops(shapes, children.push(id), path) == child_ops(shapes, id, path)
            + children_ops(shapes, Seq::<u128>::empty(), path));
        assert(child_ops(shapes, id, path) + Seq::<CanvasOp>::empty() =~= child_ops(
            shapes,
            id,
            path,
        ));
        assert(Seq::<CanvasOp>::empty() + child_ops(shapes, id, path) =~= child_ops(
            shapes,
            id,
            path,
        ));
    } else {
        assert(children.push(id).first() == children.first());
        assert(children.push(id).drop_first() =~= children.drop_first().push(id));
        lemma_children_ops_snoc(shapes, children.drop_first(), id, path);
        assert(children_ops(shapes, children.push(id), path) =~= children_ops(
            shapes,
            children,
            path,
        ) + child_ops(shapes, id, path));
    }
}

/// Walks the stored shape under `id`, appending its operations to `ops`.
/// `path` holds the identifiers the walk is currently inside of, root
/// first; it comes back exactly as it went in.
fn render_node(shapes: &HashMap<u128, Shape>, id: u128, path: &mut Vec<u128>, ops: &mut Vec<
    CanvasOp,
>)
    requires
        old(path)@.no_duplicates(),
        old(path)@.to_set().subset_of(store_view(shapes@).dom()),
    ensures
        final(path)@ == old(path)@,
        final(ops)@ == old(ops)@ + child_ops(store_view(shapes@), id, old(path)@.to_set()),
    decreases store_view(shapes@).dom().len() - path@.len(),
{
    let ghost sv = store_view(shapes@);
    let ghost pset = old(path)@.to_set();
    proof {
        old(path)@.unique_seq_to_set();
        assert(sv.dom() =~= shapes@.dom());
        assert(sv.dom().finite());
        assert(path_ok(sv, pset));
    }
    if contains_id(path, id) {
        proof {
            assert(pset.contains(id));
            assert(ops@ + child_ops(sv, id, pset) =~= ops@);
        }
        return ;
    }
    let shape = match shapes.get(&id) {
        Some(shape) => shape,
        None => {
            proof {
                assert(!shapes@.contains_key(id));
                assert(!sv.dom().contains(id));
                assert(ops@ + child_ops(sv, id, pset) =~= ops@);
            }
            return ;
        },
    };
    proof {
        assert(shapes@.contains_key(id));
        assert(sv.dom().contains(id));
        assert(shape@ == sv[id]);
    }
    ops.push(CanvasOp::Save);
    ops.push(CanvasOp::Concat { matrix: shape.transform });
    let ghost ops1 = ops@;
    let mut i: usize = 0;
    while i < shape.fills.len()
        invariant
            0 <= i <= shape.fills.len(),
            ops@ == ops1 + fill_ops(shape@.selrect, shape@.fills.take(i as int)),
        decreases shape.fills.len() - i,
    {
        ops.push(CanvasOp::FillRect { rect: shape.selrect, fill: shape.fills[i] });
        proof {
            assert(shape@.fills.take(i as int + 1) =~= shape@.fills.take(i as int).push(
                shape@.fills[i as int],
            ));
            assert(fill_ops(shape@.selrect, shape@.fills.take(i as int + 1)) =~= fill_ops(
                shape@.selrect,
                shape@.fills.take(i as int),
            ).push(CanvasOp::FillRect { rect: shape@.selrect, fill: shape@.fills[i as int] }));
        }
        i = i + 1;
    }
    proof {
        assert(shape@.fills.take(shape.fills@.len() as int) =~= shape@.fills);
        assert(ops@ == ops1 + fill_ops(shape@.selrect, shape@.fills));
    }
    let ghost ops2 = ops@;
    path.push(id);
    let ghost inner = path@;
    proof {
        assert(inner =~= old(path)@.push(id));
        old(path)@.lemma_push_to_set_commute(id);
        assert(inner.to_set() =~= pset.insert(id));
        assert(inner.no_duplicates());
        assert(inner.to_set().subset_of(sv.dom()));
        inner.unique_seq_to_set();
        lemma_len_subset(inner.to_set(), sv.dom());
    }
    let mut j: usize = 0;
    while j < shape.children.len()
        invariant
            0 <= j <= shape.children.len(),
            path@ == inner,
            inner == old(path)@.push(id),
            inner.no_duplicates(),
            inner.to_set() == pset.insert(id),
            inner.to_set().subset_of(sv.dom()),
            sv == store_view(shapes@),
            sv.dom().finite(),
            ops@ == ops2 + children_ops(sv, shape@.children.take(j as int), pset.insert(id)),
        decreases shape.children.len() - j,
    {
        let child = shape.children[j];
        proof {
            assert(path_ok(sv, inner.to_set()));
            inner.unique_seq_to_set();
            lemma_len_subset(inner.to_set(), sv.dom());
        }
        render_node(shapes, child.value, path, ops);
        proof {
            assert(shape@.children.take(j as int + 1) =~= shape@.children.take(j as int).push(
                shape@.children[j as int],
            ));
            lemma_children_ops_snoc(
                sv,
                shape@.children.take(j as int),
                shape@.children[j as int],
                pset.insert(id),
            );
            assert(ops@ =~= ops2 + children_ops(
                sv,
                shape@.children.take(j as int + 1),
                pset.insert(id),
            ));
        }
        j = j + 1;
    }
    proof {
        assert(shape@.children.take(shape.children@.len() as int) =~= shape@.children);
    }
    let _ = path.pop();
    proof {
        assert(path@ =~= old(path)@);
    }
    ops.push(CanvasOp::Restore);
    proof {
        assert(ops@ =~= old(ops)@ + child_ops(sv, id, pset));
    }
}

/// Whether the identifier is on the current path; a plain linear scan, the
/// path is never deeper than the store.
fn contains_id(path: &Vec<u128>, id: u128) -> (r: bool)
    ensures
        r == path@.to_set().contains(id),
{
    let mut i: usize = 0;
    while i < path.len()
        invariant
            0 <= i <= path@.len(),
            forall|k: int| 0 <= k < i ==> path@[k] != id,
        decreases path@.len() - i,
    {
        if path[i] == id {
            proof {
                assert(path@.contains(id));
            }
            return true;
        }
        i = i + 1;
    }
    proof {
        assert(!path@.contains(id));
    }
    false
}

/// The depth-first, pre-order traversal of the store starting at `root`:
/// returns the canvas operations the scene draws with, in issue order. The
/// walk is read-only on the state.
pub fn render_shape_tree(state: &State, root: ShapeId) -> (ops: Vec<CanvasOp>)
    ensures
        ops@ == root_ops(state@.shapes, root.value),
{
    let mut ops: Vec<CanvasOp> = Vec::new();
    let mut path: Vec<u128> = Vec::new();
    proof {
        assert(path@.to_set() =~= Set::<u128>::empty());
    }
    render_node(&state.shapes, root.value, &mut path, &mut ops);
    proof {
        assert(ops@ =~= root_ops(state@.shapes, root.value));
    }
    ops
}

/// The operation list of one whole frame: wipe the surface, reset the
/// transform, apply the global zoom then the pan, draw the tree from the
/// scene-root sentinel, submit.
pub open spec fn frame_ops(shapes: Map<u128, ShapeView>, zoom: u32, pan_x: u32, pan_y: u32) -> Seq<
    CanvasOp,
> {
    seq![
        CanvasOp::Clear,
        CanvasOp::ResetMatrix,
        CanvasOp::Scale { sx: zoom, sy: zoom },
        CanvasOp::Translate { dx: pan_x, dy: pan_y },
    ] + root_ops(shapes, 0) + seq![CanvasOp::Flush]
}

/// One factor of the canvas's active transform. The numeric composition of
/// the factors is the drawing backend's business; the model keeps them
/// symbolic, in application order, which is exactly what the save/restore
/// discipline of the traversal is about.
pub enum TransformStep {
    Scale { sx: u32, sy: u32 },
    Translate { dx: u32, dy: u32 },
    Matrix { matrix: Matrix },
}

/// The canvas transform state the replay of an operation list goes through:
/// the stack of saved transforms and the active one, each a sequence of
/// factors composed left to right. The identity transform is the empty
/// sequence.
#[verifier::ext_equal]
pub struct CanvasModel {
    pub saved: Seq<Seq<TransformStep>>,
    pub current: Seq<TransformStep>,
}

/// What one canvas operation does to the transform state. Painting and
/// submitting touch pixels, not transforms; a restore against an empty
/// stack keeps the state.
pub open spec fn canvas_step(c: CanvasModel, op: CanvasOp) -> CanvasModel {
    match op {
        CanvasOp::Clear => c,
        CanvasOp::ResetMatrix => CanvasModel { current: Seq::empty(), ..c },
        CanvasOp::Scale { sx, sy } => CanvasModel {
            current: c.current.push(TransformStep::Scale { sx, sy }),
            ..c
        },
        CanvasOp::Translate { dx, dy } => CanvasModel {
            current: c.current.push(TransformStep::Translate { dx, dy }),
            ..c
        },
        CanvasOp::Concat { matrix } => CanvasModel {
            current: c.current.push(TransformStep::Matrix { matrix }),
            ..c
        },
        CanvasOp::Save => CanvasModel { saved: c.saved.push(c.current), ..c },
        CanvasOp::Restore => if c.saved.len() > 0 {
            CanvasModel { saved: c.saved.drop_last(), current: c.saved.last() }
        } else {
            c
        },
        CanvasOp::FillRect { .. } => c,
        CanvasOp::Flush => c,
    }
}

/// The transform state after replaying a whole operation list.
pub open spec fn canvas_run(c: CanvasModel, ops: Seq<CanvasOp>) -> CanvasModel
    decreases ops.len(),
{
    if ops.len() == 0 {
        c
    } else {
        canvas_run(canvas_step(c, ops.first()), ops.drop_first())
    }
}

/// Replaying a concatenation is replaying the parts in order.
pub proof fn lemma_canvas_run_append(c: CanvasModel, a: Seq<CanvasOp>, b: Seq<CanvasOp>)
    ensures
        canvas_run(c, a + b) == canvas_run(canvas_run(c, a), b),
    decreases a.len(),
{
    if a.len() == 0 {
        assert(a + b =~= b);
    } else {
        assert((a + b).first() == a.first());
        assert((a + b).drop_first() =~= a.drop_first() + b);
        lemma_canvas_run_append(canvas_step(c, a.first()), a.drop_first(), b);
    }
}

/// Replaying a single operation is stepping by it.
pub proof fn lemma_canvas_run_one(c: CanvasModel, op: CanvasOp)
    ensures
        canvas_run(c, seq![op]) == canvas_step(c, op),
{
    assert(seq![op].first() == op);
    assert(seq![op].drop_first() =~= Seq::<CanvasOp>::empty());
    assert(canvas_run(canvas_step(c, op), Seq::<CanvasOp>::empty()) == canvas_step(c, op));
}

/// Resetting the canvas matrix leaves the identity transform active,
/// whatever was accumulated before; the saved stack is untouched.
pub proof fn lemma_reset_matrix_clears_transform(c: CanvasModel)
    ensures
        canvas_step(c, CanvasOp::ResetMatrix).current == Seq::<TransformStep>::empty(),
        canvas_step(c, CanvasOp::ResetMatrix).saved == c.saved,
{
}

/// Paint operations leave the transform state alone.
pub proof fn lemma_fill_ops_keep_canvas(rect: Rect, fills: Seq<Fill>, c: CanvasModel)
    ensures
        canvas_run(c, fill_ops(rect, fills)) == c,
    decreases fills.len(),
{
    if fills.len() == 0 {
    } else {
        assert(fill_ops(rect, fills).first() == (CanvasOp::FillRect { rect, fill: fills.first() }));
        assert(fill_ops(rect, fills).drop_first() =~= fill_ops(rect, fills.drop_first()));
        lemma_fill_ops_keep_canvas(rect, fills.drop_first(), c);
    }
}

/// The heart of sibling isolation: replaying the operation block of one
/// shape brings the canvas transform state back to exactly what it was
/// before the block, so a later sibling starts from the parent's transform,
/// never from anything a finished subtree accumulated.
pub proof fn lemma_shape_ops_restore_canvas(
    shapes: Map<u128, ShapeView>,
    id: u128,
    path: Set<u128>,
    c: CanvasModel,
)
    requires
        path_ok(shapes, path),
        shapes.dom().contains(id),
        !path.contains(id),
    ensures
        canvas_run(c, shape_ops(shapes, id, path)) == c,
    decreases shapes.dom().len() - path.len(), 0nat, 0nat,
{
    lemma_len_subset(path.insert(id), shapes.dom());
    let pre = seq![CanvasOp::Save, CanvasOp::Concat { matrix: shapes[id].transform }];
    let fo = fill_ops(shapes[id].selrect, shapes[id].fills);
    let ch = children_ops(shapes, shapes[id].children, path.insert(id));
    let post = seq![CanvasOp::Restore];
    assert(shape_ops(shapes, id, path) == pre + fo + ch + post);
    lemma_canvas_run_append(c, pre + fo + ch, post);
    lemma_canvas_run_append(c, pre + fo, ch);
    lemma_canvas_run_append(c, pre, fo);
    let concat = CanvasOp::Concat { matrix: shapes[id].transform };
    assert(pre =~= seq![CanvasOp::Save] + seq![concat]);
    lemma_canvas_run_append(c, seq![CanvasOp::Save], seq![concat]);
    lemma_canvas_run_one(c, CanvasOp::Save);
    lemma_canvas_run_one(canvas_step(c, CanvasOp::Save), concat);
    let c1 = canvas_step(canvas_step(c, CanvasOp::Save), concat);
    assert(canvas_run(c, pre) == c1);
    assert(c1.saved == c.saved.push(c.current));
    lemma_fill_ops_keep_canvas(shapes[id].selrect, shapes[id].fills, c1);
    lemma_children_ops_restore_canvas(shapes, shapes[id].children, path.insert(id), c1);
    lemma_canvas_run_one(c1, CanvasOp::Restore);
    assert(canvas_run(c1, post) == canvas_step(c1, CanvasOp::Restore));
    assert(c1.saved.drop_last() =~= c.saved);
    assert(canvas_step(c1, CanvasOp::Restore) =~= c);
}

/// Replaying the block of one child identifier preserves the transform
/// state: either the child's shape block does, or nothing was issued.
pub proof fn lemma_child_ops_restore_canvas(
    shapes: Map<u128, ShapeView>,
    id: u128,
    path: Set<u128>,
    c: CanvasModel,
)
    requires
        path_ok(shapes, path),
    ensures
        canvas_run(c, child_ops(shapes, id, path)) == c,
    decreases shapes.dom().len() - path.len(), 1nat, 0nat,
{
    if shapes.dom().contains(id) && !path.contains(id) {
        lemma_shape_ops_restore_canvas(shapes, id, path, c);
    }
}

/// Replaying the blocks of a whole child list preserves the transform
/// state.
pub proof fn lemma_children_ops_restore_canvas(
    shapes: Map<u128, ShapeView>,
    children: Seq<u128>,
    path: Set<u128>,
    c: CanvasModel,
)
    requires
        path_ok(shapes, path),
    ensures
        canvas_run(c, children_ops(shapes, children, path)) == c,
    decreases shapes.dom().len() - path.len(), 2nat, children.len(),
{
    if children.len() == 0 {
    } else {
        lemma_canvas_run_append(c, child_ops(shapes, children.first(), path), children_ops(
            shapes,
            children.drop_first(),
            path,
        ));
        lemma_child_ops_restore_canvas(shapes, children.first(), path, c);
        lemma_children_ops_restore_canvas(shapes, children.drop_first(), path, c);
    }
}

/// What one frame leaves on the canvas transform state: the active
/// transform is exactly the global view transform, zoom then pan, whatever
/// was accumulated before the frame; the saved stack comes through
/// untouched. In particular every transform composed during the traversal
/// has been restored by the time the frame is submitted.
pub proof fn lemma_frame_ops_transform(
    shapes: Map<u128, ShapeView>,
    zoom: u32,
    pan_x: u32,
    pan_y: u32,
    c: CanvasModel,
)
    requires
        shapes.dom().finite(),
    ensures
        canvas_run(c, frame_ops(shapes, zoom, pan_x, pan_y)).current == seq![
            TransformStep::Scale { sx: zoom, sy: zoom },
            TransformStep::Translate { dx: pan_x, dy: pan_y },
        ],
        canvas_run(c, frame_ops(shapes, zoom, pan_x, pan_y)).saved == c.saved,
{
    let pre = seq![
        CanvasOp::Clear,
        CanvasOp::ResetMatrix,
        CanvasOp::Scale { sx: zoom, sy: zoom },
        CanvasOp::Translate { dx: pan_x, dy: pan_y },
    ];
    let tree = root_ops(shapes, 0);
    let post = seq![CanvasOp::Flush];
    assert(frame_ops(shapes, zoom, pan_x, pan_y) == pre + tree + post);
    lemma_canvas_run_append(c, pre + tree, post);
    lemma_canvas_run_append(c, pre, tree);
    let scale = CanvasOp::Scale { sx: zoom, sy: zoom };
    let pan = CanvasOp::Translate { dx: pan_x, dy: pan_y };
    assert(pre =~= seq![CanvasOp::Clear] + seq![CanvasOp::ResetMatrix] + seq![scale] + seq![pan]);
    lemma_canvas_run_append(c, seq![CanvasOp::Clear] + seq![CanvasOp::ResetMatrix] + seq![scale], seq![pan]);
    lemma_canvas_run_append(c, seq![CanvasOp::Clear] + seq![CanvasOp::ResetMatrix], seq![scale]);
    lemma_canvas_run_append(c, seq![CanvasOp::Clear], seq![CanvasOp::ResetMatrix]);
    lemma_canvas_run_one(c, CanvasOp::Clear);
    let ca = canvas_step(c, CanvasOp::Clear);
    lemma_canvas_run_one(ca, CanvasOp::ResetMatrix);
    let cb = canvas_step(ca, CanvasOp::ResetMatrix);
    lemma_canvas_run_one(cb, scale);
    let cc = canvas_step(cb, scale);
    lemma_canvas_run_one(cc, pan);
    let c1 = canvas_step(cc, pan);
    assert(canvas_run(c, pre) == c1);
    assert(c1.saved == c.saved);
    assert(c1.current =~= seq![
        TransformStep::Scale { sx: zoom, sy: zoom },
        TransformStep::Translate { dx: pan_x, dy: pan_y },
    ]);
    assert(Set::<u128>::empty().subset_of(shapes.dom()));
    assert(path_ok(shapes, Set::<u128>::empty()));
    lemma_child_ops_restore_canvas(shapes, 0, Set::<u128>::empty(), c1);
    lemma_canvas_run_one(canvas_run(c1, tree), CanvasOp::Flush);
    assert(canvas_run(canvas_run(c1, tree), post) == canvas_run(c1, tree));
}

/// Renders one full frame: the global view transform (zoom, then pan)
/// followed by the scene tree from the root sentinel, between a clear and a
/// submit. All three numeric parameters are single-precision bit patterns.
pub fn draw_all_shapes(state: &State, zoom: u32, pan_x: u32, pan_y: u32) -> (ops: Vec<CanvasOp>)
    ensures
        ops@ == frame_ops(state@.shapes, zoom, pan_x, pan_y),
{
    let mut ops: Vec<CanvasOp> = Vec::new();
    ops.push(CanvasOp::Clear);
    ops.push(CanvasOp::ResetMatrix);
    ops.push(CanvasOp::Scale { sx: zoom, sy: zoom });
    ops.push(CanvasOp::Translate { dx: pan_x, dy: pan_y });
    let mut tree = render_shape_tree(state, ShapeId::nil());
    ops.append(&mut tree);
    ops.push(CanvasOp::Flush);
    proof {
        assert(ops@ =~= frame_ops(state@.shapes, zoom, pan_x, pan_y));
    }
    ops
}

} // verus!
