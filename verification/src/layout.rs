//! The layout/paint visitor: resolves the scene tree into draw primitives.
//!
//! The traversal is pre-order and depth-first, children in declared order.
//! It carries the current resolved rectangle down the recursion and threads a
//! single draw-order counter through it; only layer child slots advance the
//! counter.  Its outcome is defined by the recursive specification functions
//! in this module, which the executable visitor is proved to match exactly.
//!
//! The recursion carries a depth budget of one more than the size of the node
//! table, which covers every scene whose child references form no cycle: on
//! such a scene no path can revisit a node, so no path is longer than the
//! table.  A subtree nested beyond the budget (possible only through a
//! reference cycle) is skipped like an absent node.

use vstd::prelude::*;
use std::collections::HashMap;

use crate::geometry::Color;
use crate::geometry::Dimension;
use crate::geometry::Rect;
use crate::geometry::clamp_len;
use crate::geometry::clamp_len_i128;
use crate::geometry::lemma_mul_bounds;
use crate::geometry::sat32;
use crate::geometry::sat_i128_to_i32;
use crate::geometry::trunc_div;
use crate::geometry::trunc_div_i128;
use crate::scene::Node;
use crate::scene::NodeId;
use crate::scene::NodeView;
use crate::scene::Position;
use crate::scene::Scene;
use crate::scene::Size;
use crate::scene::node_map_view;
use crate::texture::TextureId;

verus! {

broadcast use vstd::std_specs::hash::group_hash_axioms;

/// A flat-colored draw primitive: a rectangle at (x, y) with a clamped
/// non-negative extent, a draw-order index z, and a color carried through
/// from the node.
#[derive(Clone, Copy, Debug, PartialEq, Eq, Structural)]
pub struct FlatPrimitive {
    pub x: i32,
    pub y: i32,
    pub z: u32,
    pub width: i32,
    pub height: i32,
    pub color: Color,
}

/// A textured draw primitive: as `FlatPrimitive`, but referencing a
/// registered texture by identifier instead of carrying a color.
#[derive(Clone, Copy, Debug, PartialEq, Eq, Structural)]
pub struct TexturedPrimitive {
    pub x: i32,
    pub y: i32,
    pub z: u32,
    pub width: i32,
    pub height: i32,
    pub texture_id: TextureId,
}

/// A configuration error detected during layout resolution.
#[derive(Clone, Copy, Debug, PartialEq, Eq, Structural)]
pub enum LayoutError {
    /// A row or column holds at least one `Weight` child while the weights
    /// sum to zero, so the remaining space cannot be apportioned.
    ZeroTotalWeight,
}

/// The axis a row or column distributes along: a row partitions the parent's
/// height, a column the parent's width.
#[derive(Clone, Copy, Debug, PartialEq, Eq, Structural)]
pub enum Axis {
    Horizontal,
    Vertical,
}

/// Everything one traversal step yields: the primitives emitted (in order),
/// the draw-order counter afterwards, and whether resolution succeeded.
#[verifier::ext_equal]
pub struct VisitOutcome {
    pub flats: Seq<FlatPrimitive>,
    pub texs: Seq<TexturedPrimitive>,
    pub counter: u32,
    pub ok: bool,
}

/// An outcome that emits nothing and leaves the counter as it is.
pub open spec fn outcome_empty(counter: u32) -> VisitOutcome {
    VisitOutcome { flats: Seq::empty(), texs: Seq::empty(), counter, ok: true }
}

/// Prepends already-emitted primitives to a later outcome.
pub open spec fn outcome_prepend(
    flats: Seq<FlatPrimitive>,
    texs: Seq<TexturedPrimitive>,
    rest: VisitOutcome,
) -> VisitOutcome {
    VisitOutcome { flats: flats + rest.flats, texs: texs + rest.texs, counter: rest.counter, ok: rest.ok }
}

/// Advances the draw-order counter by one layer slot (saturating at the top
/// of its range).
pub open spec fn bump(counter: u32) -> u32 {
    if counter == u32::MAX {
        counter
    } else {
        (counter + 1) as u32
    }
}

/// The flat primitive a `Rect` node emits for a resolved rectangle: the
/// extent is clamped to zero here, at emission, and nowhere earlier.
pub open spec fn flat_primitive(rect: Rect, z: u32, color: Color) -> FlatPrimitive {
    FlatPrimitive {
        x: rect.x,
        y: rect.y,
        z,
        width: clamp_len(rect.w as int) as i32,
        height: clamp_len(rect.h as int) as i32,
        color,
    }
}

/// The textured primitive a `Texture` node emits for a resolved rectangle.
pub open spec fn textured_primitive(rect: Rect, z: u32, texture_id: TextureId) -> TexturedPrimitive {
    TexturedPrimitive {
        x: rect.x,
        y: rect.y,
        z,
        width: clamp_len(rect.w as int) as i32,
        height: clamp_len(rect.h as int) as i32,
        texture_id,
    }
}

/// The weight a size contributes to a distribution (zero unless it is a
/// `Weight`).
pub open spec fn weight_of(size: Size) -> int {
    match size {
        Size::Weight(weight) => weight as int,
        _ => 0,
    }
}

/// The sum of the weights of a child list.
pub open spec fn total_weight(children: Seq<(Size, NodeId)>) -> int
    decreases children.len(),
{
    if children.len() == 0 {
        0
    } else {
        total_weight(children.drop_last()) + weight_of(children.last().0)
    }
}

/// Whether a child list holds at least one `Weight` entry.
pub open spec fn has_weight(children: Seq<(Size, NodeId)>) -> bool
    decreases children.len(),
{
    if children.len() == 0 {
        false
    } else {
        has_weight(children.drop_last()) || children.last().0 is Weight
    }
}

/// The length a non-weight size contributes in the first distribution pass
/// (weights contribute nothing there).
pub open spec fn fixed_len(size: Size, parent_size: Dimension, screen_size: Dimension) -> int {
    match size {
        Size::Weight(_) => 0,
        _ => size.spec_resolve(parent_size, screen_size),
    }
}

/// The sum of the immediately resolved (non-weight) child lengths.
pub open spec fn fixed_total(
    children: Seq<(Size, NodeId)>,
    parent_size: Dimension,
    screen_size: Dimension,
) -> int
    decreases children.len(),
{
    if children.len() == 0 {
        0
    } else {
        fixed_total(children.drop_last(), parent_size, screen_size) + fixed_len(
            children.last().0,
            parent_size,
            screen_size,
        )
    }
}

/// The un-clamped length one distribution entry resolves to: a weight takes
/// its truncated share of the remaining space, anything else its immediately
/// resolved length.
pub open spec fn flex_raw_len(
    size: Size,
    remaining: int,
    weight_sum: int,
    parent_size: Dimension,
    screen_size: Dimension,
) -> int {
    match size {
        Size::Weight(weight) => trunc_div(remaining * (weight as int), weight_sum),
        _ => size.spec_resolve(parent_size, screen_size),
    }
}

/// The rectangle a distribution entry is assigned: the running cursor along
/// the distribution axis, the clamped length, and the parent's full
/// cross-axis extent.
pub open spec fn flex_child_rect(parent_rect: Rect, axis: Axis, cursor: int, length: int) -> Rect
    recommends
        0 <= length <= i32::MAX,
{
    match axis {
        Axis::Horizontal => Rect {
            x: sat32(cursor) as i32,
            y: parent_rect.y,
            w: length as i32,
            h: parent_rect.h,
        },
        Axis::Vertical => Rect {
            x: parent_rect.x,
            y: sat32(cursor) as i32,
            w: parent_rect.w,
            h: length as i32,
        },
    }
}

/// What visiting one node yields: nothing for an absent node or an exhausted
/// depth budget, a primitive for a leaf, and the children's combined outcome
/// for a container.
pub open spec fn visit_node_spec(
    nodes: Map<NodeId, NodeView>,
    id: NodeId,
    rect: Rect,
    screen_size: Dimension,
    counter: u32,
    fuel: nat,
) -> VisitOutcome
    decreases fuel, 0nat, 0nat,
{
    if fuel == 0 || !nodes.dom().contains(id) {
        outcome_empty(counter)
    } else {
        match nodes[id] {
            NodeView::Empty => outcome_empty(counter),
            NodeView::Rect { color } => VisitOutcome {
                flats: seq![flat_primitive(rect, counter, color)],
                texs: Seq::empty(),
                counter,
                ok: true,
            },
            NodeView::Texture { texture_id } => VisitOutcome {
                flats: Seq::empty(),
                texs: seq![textured_primitive(rect, counter, texture_id)],
                counter,
                ok: true,
            },
            NodeView::Layer { children } => layer_children_spec(
                nodes,
                children,
                rect,
                screen_size,
                counter,
                (fuel - 1) as nat,
            ),
            NodeView::Row { children } => flex_node_spec(
                nodes,
                children,
                rect,
                screen_size,
                Axis::Vertical,
                counter,
                (fuel - 1) as nat,
            ),
            NodeView::Column { children } => flex_node_spec(
                nodes,
                children,
                rect,
                screen_size,
                Axis::Horizontal,
                counter,
                (fuel - 1) as nat,
            ),
        }
    }
}

/// What a layer yields: each child resolves its position against the layer's
/// own rectangle, is visited, and then the counter advances by exactly one,
/// whether or not the child produced anything.
pub open spec fn layer_children_spec(
    nodes: Map<NodeId, NodeView>,
    children: Seq<(Position, NodeId)>,
    rect: Rect,
    screen_size: Dimension,
    counter: u32,
    fuel: nat,
) -> VisitOutcome
    decreases fuel, 1nat, children.len(),
{
    if children.len() == 0 {
        outcome_empty(counter)
    } else {
        let child_rect = children[0].0.spec_apply(rect, screen_size);
        let head = visit_node_spec(nodes, children[0].1, child_rect, screen_size, counter, fuel);
        if !head.ok {
            head
        } else {
            let rest = layer_children_spec(
                nodes,
                children.drop_first(),
                rect,
                screen_size,
                bump(head.counter),
                fuel,
            );
            outcome_prepend(head.flats, head.texs, rest)
        }
    }
}

/// What a row or column yields: an error if it holds weights that sum to
/// zero; otherwise its children's combined outcome, with the remaining space
/// (the axis extent minus the immediately resolved lengths) apportioned
/// among the weights.
pub open spec fn flex_node_spec(
    nodes: Map<NodeId, NodeView>,
    children: Seq<(Size, NodeId)>,
    parent_rect: Rect,
    screen_size: Dimension,
    axis: Axis,
    counter: u32,
    fuel: nat,
) -> VisitOutcome
    decreases fuel, 2nat, 0nat,
{
    let weight_sum = total_weight(children);
    if has_weight(children) && weight_sum == 0 {
        VisitOutcome { flats: Seq::empty(), texs: Seq::empty(), counter, ok: false }
    } else {
        let extent = match axis {
            Axis::Horizontal => parent_rect.w as int,
            Axis::Vertical => parent_rect.h as int,
        };
        let origin = match axis {
            Axis::Horizontal => parent_rect.x as int,
            Axis::Vertical => parent_rect.y as int,
        };
        let remaining = extent - fixed_total(
            children,
            parent_rect.spec_dimension(),
            screen_size,
        );
        flex_children_spec(
            nodes,
            children,
            parent_rect,
            screen_size,
            axis,
            origin,
            remaining,
            weight_sum,
            counter,
            fuel,
        )
    }
}

/// What the entries of a row or column yield, walked in order with a running
/// cursor: each child takes its clamped length at the cursor and the full
/// cross-axis extent, is visited, and the cursor advances by the clamped
/// length.  The counter is not advanced per slot here.
pub open spec fn flex_children_spec(
    nodes: Map<NodeId, NodeView>,
    children: Seq<(Size, NodeId)>,
    parent_rect: Rect,
    screen_size: Dimension,
    axis: Axis,
    cursor: int,
    remaining: int,
    weight_sum: int,
    counter: u32,
    fuel: nat,
) -> VisitOutcome
    decreases fuel, 1nat, children.len(),
{
    if children.len() == 0 {
        outcome_empty(counter)
    } else {
        let length = clamp_len(
            flex_raw_len(
                children[0].0,
                remaining,
                weight_sum,
                parent_rect.spec_dimension(),
                screen_size,
            ),
        );
        let child_rect = flex_child_rect(parent_rect, axis, cursor, length);
        let head = visit_node_spec(nodes, children[0].1, child_rect, screen_size, counter, fuel);
        if !head.ok {
            head
        } else {
            let rest = flex_children_spec(
                nodes,
                children.drop_first(),
                parent_rect,
                screen_size,
                axis,
                cursor + length,
                remaining,
                weight_sum,
                head.counter,
                fuel,
            );
            outcome_prepend(head.flats, head.texs, rest)
        }
    }
}

/// The rectangle the root resolves against: the whole screen.
pub open spec fn screen_rect_spec(screen_size: Dimension) -> Rect {
    Rect { x: 0, y: 0, w: screen_size.width, h: screen_size.height }
}

/// The depth budget for a table of `n` nodes: `n + 1` levels, enough for
/// every cycle-free scene.
pub open spec fn fuel_for(n: nat) -> nat {
    if n + 1 <= u64::MAX {
        n + 1
    } else {
        u64::MAX as nat
    }
}

impl Scene {
    /// What one full traversal of this scene yields for a screen extent: an
    /// unset root yields the empty outcome.
    pub open spec fn spec_visit(self, screen_size: Dimension) -> VisitOutcome {
        match self@.root {
            None => outcome_empty(0),
            Some(root) => visit_node_spec(
                self@.nodes,
                root,
                screen_rect_spec(screen_size),
                screen_size,
                0,
                fuel_for(self@.nodes.len()),
            ),
        }
    }
}

/// The resolved output of one full traversal: the two primitive lists, in
/// traversal order, and the draw-order counter after the walk (an upper
/// bound on the depth range the renderer must provision).
#[derive(Debug, PartialEq)]
pub struct DrawLists {
    pub flat: Vec<FlatPrimitive>,
    pub textured: Vec<TexturedPrimitive>,
    pub draw_order_end: u32,
}

impl Scene {
    /// Resolves the whole scene against a screen extent, emitting the draw
    /// primitives in traversal order.  An unset root yields empty lists.
    /// The one error: a row or column holding weights that sum to zero.
    pub fn visit(&self, screen_size: Dimension) -> (r: Result<DrawLists, LayoutError>)
        ensures
            ({
                let out = self.spec_visit(screen_size);
                match r {
                    Ok(lists) => out.ok && lists.flat@ == out.flats && lists.textured@ == out.texs
                        && lists.draw_order_end == out.counter,
                    Err(e) => !out.ok && e == LayoutError::ZeroTotalWeight,
                }
            }),
    {
        proof {
            crate::scene::scene_view_facts(self);
        }
        let mut flat: Vec<FlatPrimitive> = Vec::new();
        let mut textured: Vec<TexturedPrimitive> = Vec::new();
        match self.root_node {
            None => Ok(DrawLists { flat, textured, draw_order_end: 0 }),
            Some(root) => {
                let table_len: u64 = self.nodes.len() as u64;
                let fuel: u64 = if table_len == u64::MAX {
                    table_len
                } else {
                    table_len + 1
                };
                proof {
                    assert(node_map_view(self.nodes@).dom() =~= self.nodes@.dom());
                    assert(fuel as nat == fuel_for(self@.nodes.len()));
                }
                let root_rect = Rect::new(0, 0, screen_size.width, screen_size.height);
                match visit_node(
                    &self.nodes,
                    root,
                    root_rect,
                    screen_size,
                    0,
                    fuel,
                    &mut flat,
                    &mut textured,
                ) {
                    Ok(counter) => {
                        proof {
                            let out = self.spec_visit(screen_size);
                            assert(Seq::<FlatPrimitive>::empty() + out.flats =~= out.flats);
                            assert(Seq::<TexturedPrimitive>::empty() + out.texs =~= out.texs);
                        }
                        Ok(DrawLists { flat, textured, draw_order_end: counter })
                    },
                    Err(e) => Err(e),
                }
            },
        }
    }
}

proof fn lemma_prepend_prepend(
    first_f: Seq<FlatPrimitive>,
    first_t: Seq<TexturedPrimitive>,
    second_f: Seq<FlatPrimitive>,
    second_t: Seq<TexturedPrimitive>,
    rest: VisitOutcome,
)
    ensures
        outcome_prepend(first_f, first_t, outcome_prepend(second_f, second_t, rest))
            == outcome_prepend(first_f + second_f, first_t + second_t, rest),
{
    assert(outcome_prepend(first_f, first_t, outcome_prepend(second_f, second_t, rest))
        =~= outcome_prepend(first_f + second_f, first_t + second_t, rest));
}

proof fn lemma_prepend_empty(
    flats: Seq<FlatPrimitive>,
    texs: Seq<TexturedPrimitive>,
    counter: u32,
)
    ensures
        outcome_prepend(flats, texs, outcome_empty(counter)) == (VisitOutcome {
            flats,
            texs,
            counter,
            ok: true,
        }),
{
    assert(outcome_prepend(flats, texs, outcome_empty(counter)) =~= (VisitOutcome {
        flats,
        texs,
        counter,
        ok: true,
    }));
}

/// Clamps a resolved length to a minimum of zero.
fn clamp0(v: i32) -> (r: i32)
    ensures
        r as int == clamp_len(v as int),
{
    if v < 0 {
        0
    } else {
        v
    }
}

fn visit_node(
    nodes: &HashMap<NodeId, Node>,
    id: NodeId,
    rect: Rect,
    screen_size: Dimension,
    counter: u32,
    fuel: u64,
    flat: &mut Vec<FlatPrimitive>,
    textured: &mut Vec<TexturedPrimitive>,
) -> (r: Result<u32, LayoutError>)
    ensures
        ({
            let out = visit_node_spec(
                node_map_view(nodes@),
                id,
                rect,
                screen_size,
                counter,
                fuel as nat,
            );
            match r {
                Ok(c) => out.ok && c == out.counter && final(flat)@ == old(flat)@ + out.flats
                    && final(textured)@ == old(textured)@ + out.texs,
                Err(e) => !out.ok && e == LayoutError::ZeroTotalWeight,
            }
        }),
    decreases fuel, 0int,
{
    let ghost m = node_map_view(nodes@);
    proof {
        assert(old(flat)@ + Seq::<FlatPrimitive>::empty() =~= old(flat)@);
        assert(old(textured)@ + Seq::<TexturedPrimitive>::empty() =~= old(textured)@);
    }
    if fuel == 0 {
        return Ok(counter);
    }
    let node = match nodes.get(&id) {
        Some(node) => {
            proof {
                assert(m.dom().contains(id));
                assert(m[id] == nodes@[id]@);
            }
            node
        },
        None => {
            proof {
                assert(!m.dom().contains(id));
            }
            return Ok(counter);
        },
    };
    match node {
        Node::Empty => Ok(counter),
        Node::Rect { color } => {
            flat.push(
                FlatPrimitive {
                    x: rect.x,
                    y: rect.y,
                    z: counter,
                    width: clamp0(rect.w),
                    height: clamp0(rect.h),
                    color: *color,
                },
            );
            proof {
                assert(flat@ =~= old(flat)@ + seq![flat_primitive(rect, counter, *color)]);
            }
            Ok(counter)
        },
        Node::Texture { texture_id } => {
            textured.push(
                TexturedPrimitive {
                    x: rect.x,
                    y: rect.y,
                    z: counter,
                    width: clamp0(rect.w),
                    height: clamp0(rect.h),
                    texture_id: *texture_id,
                },
            );
            proof {
                assert(textured@ =~= old(textured)@ + seq![
                    textured_primitive(rect, counter, *texture_id),
                ]);
            }
            Ok(counter)
        },
        Node::Layer { inner } => visit_layer(
            nodes,
            inner,
            rect,
            screen_size,
            counter,
            fuel - 1,
            flat,
            textured,
        ),
        Node::Row { inner } => visit_flex(
            nodes,
            inner,
            rect,
            screen_size,
            Axis::Vertical,
            counter,
            fuel - 1,
            flat,
            textured,
        ),
        Node::Column { inner } => visit_flex(
            nodes,
            inner,
            rect,
            screen_size,
            Axis::Horizontal,
            counter,
            fuel - 1,
            flat,
            textured,
        ),
    }
}

#[verifier::loop_isolation(false)]
fn visit_layer(
    nodes: &HashMap<NodeId, Node>,
    children: &Vec<(Position, NodeId)>,
    rect: Rect,
    screen_size: Dimension,
    counter: u32,
    fuel: u64,
    flat: &mut Vec<FlatPrimitive>,
    textured: &mut Vec<TexturedPrimitive>,
) -> (r: Result<u32, LayoutError>)
    ensures
        ({
            let out = layer_children_spec(
                node_map_view(nodes@),
                children@,
                rect,
                screen_size,
                counter,
                fuel as nat,
            );
            match r {
                Ok(c) => out.ok && c == out.counter && final(flat)@ == old(flat)@ + out.flats
                    && final(textured)@ == old(textured)@ + out.texs,
                Err(e) => !out.ok && e == LayoutError::ZeroTotalWeight,
            }
        }),
    decreases fuel, 1int,
{
    let ghost m = node_map_view(nodes@);
    let ghost full = layer_children_spec(m, children@, rect, screen_size, counter, fuel as nat);
    let ghost flat0 = flat@;
    let ghost tex0 = textured@;
    let ghost mut done_f: Seq<FlatPrimitive> = Seq::empty();
    let ghost mut done_t: Seq<TexturedPrimitive> = Seq::empty();
    let mut current: u32 = counter;
    let mut i: usize = 0;
    proof {
        assert(children@.skip(0) =~= children@);
        assert(flat0 + done_f =~= flat0);
        assert(tex0 + done_t =~= tex0);
        assert(Seq::<FlatPrimitive>::empty() + full.flats =~= full.flats);
        assert(Seq::<TexturedPrimitive>::empty() + full.texs =~= full.texs);
        assert(full =~= outcome_prepend(done_f, done_t, full));
    }
    while i < children.len()
        invariant
            i <= children@.len(),
            flat@ == flat0 + done_f,
            textured@ == tex0 + done_t,
            full == outcome_prepend(
                done_f,
                done_t,
                layer_children_spec(
                    m,
                    children@.skip(i as int),
                    rect,
                    screen_size,
                    current,
                    fuel as nat,
                ),
            ),
        decreases children@.len() - i,
    {
        let ghost tail = children@.skip(i as int);
        proof {
            assert(tail[0] == children@[i as int]);
        }
        let (position, child_id) = children[i];
        let child_rect = position.apply(rect, screen_size);
        let ghost head = visit_node_spec(m, child_id, child_rect, screen_size, current, fuel as nat);
        let ghost flat_pre = flat@;
        let ghost tex_pre = textured@;
        let res = visit_node(nodes, child_id, child_rect, screen_size, current, fuel, flat, textured);
        match res {
            Ok(c) => {
                proof {
                    let rest = layer_children_spec(
                        m,
                        tail.drop_first(),
                        rect,
                        screen_size,
                        bump(head.counter),
                        fuel as nat,
                    );
                    assert(layer_children_spec(m, tail, rect, screen_size, current, fuel as nat)
                        == outcome_prepend(head.flats, head.texs, rest));
                    assert(tail.drop_first() =~= children@.skip(i as int + 1));
                    lemma_prepend_prepend(done_f, done_t, head.flats, head.texs, rest);
                    assert(flat@ =~= (flat0 + done_f) + head.flats);
                    assert((flat0 + done_f) + head.flats =~= flat0 + (done_f + head.flats));
                    assert(textured@ =~= (tex0 + done_t) + head.texs);
                    assert((tex0 + done_t) + head.texs =~= tex0 + (done_t + head.texs));
                    done_f = done_f + head.flats;
                    done_t = done_t + head.texs;
                }
                current = if c == u32::MAX {
                    c
                } else {
                    c + 1
                };
                i = i + 1;
            },
            Err(e) => {
                proof {
                    assert(!layer_children_spec(
                        m,
                        tail,
                        rect,
                        screen_size,
                        current,
                        fuel as nat,
                    ).ok);
                }
                return Err(e);
            },
        }
    }
    proof {
        assert(children@.skip(children@.len() as int) =~= Seq::<(Position, NodeId)>::empty());
        lemma_prepend_empty(done_f, done_t, current);
    }
    Ok(current)
}

/// A child list that holds a `Weight` entry satisfies `has_weight`.
proof fn lemma_has_weight_member(children: Seq<(Size, NodeId)>, i: int)
    requires
        0 <= i < children.len(),
        children[i].0 is Weight,
    ensures
        has_weight(children),
    decreases children.len(),
{
    if i < children.len() - 1 {
        lemma_has_weight_member(children.drop_last(), i);
    }
}

/// Weights are non-negative, so their sum is too.
proof fn lemma_total_weight_nonneg(children: Seq<(Size, NodeId)>)
    ensures
        total_weight(children) >= 0,
    decreases children.len(),
{
    if children.len() > 0 {
        lemma_total_weight_nonneg(children.drop_last());
    }
}

#[verifier::loop_isolation(false)]
fn visit_flex(
    nodes: &HashMap<NodeId, Node>,
    children: &Vec<(Size, NodeId)>,
    parent_rect: Rect,
    screen_size: Dimension,
    axis: Axis,
    counter: u32,
    fuel: u64,
    flat: &mut Vec<FlatPrimitive>,
    textured: &mut Vec<TexturedPrimitive>,
) -> (r: Result<u32, LayoutError>)
    ensures
        ({
            let out = flex_node_spec(
                node_map_view(nodes@),
                children@,
                parent_rect,
                screen_size,
                axis,
                counter,
                fuel as nat,
            );
            match r {
                Ok(c) => out.ok && c == out.counter && final(flat)@ == old(flat)@ + out.flats
                    && final(textured)@ == old(textured)@ + out.texs,
                Err(e) => !out.ok && e == LayoutError::ZeroTotalWeight,
            }
        }),
    decreases fuel, 1int,
{
    let ghost m = node_map_view(nodes@);
    let parent_dim = parent_rect.dimension();

    // First pass: sum the weights and the immediately resolved lengths.
    let mut weight_sum: u128 = 0;
    let mut any_weight: bool = false;
    let mut fixed_sum: i128 = 0;
    let mut i: usize = 0;
    proof {
        assert(children@.take(0) =~= Seq::<(Size, NodeId)>::empty());
    }
    while i < children.len()
        invariant
            i <= children@.len(),
            parent_dim == parent_rect.spec_dimension(),
            weight_sum as int == total_weight(children@.take(i as int)),
            weight_sum as int <= (i as int) * 0xffff_ffff,
            any_weight == has_weight(children@.take(i as int)),
            fixed_sum as int == fixed_total(children@.take(i as int), parent_dim, screen_size),
            -((i as int) * 0x8000_0000) <= fixed_sum as int <= (i as int) * 0x8000_0000,
        decreases children@.len() - i,
    {
        let (size, _child) = children[i];
        proof {
            assert(children@.take(i as int + 1).drop_last() =~= children@.take(i as int));
            assert(children@.take(i as int + 1).last() == children@[i as int]);
        }
        match size {
            Size::Weight(weight) => {
                weight_sum = weight_sum + weight as u128;
                any_weight = true;
            },
            _ => {
                let resolved = size.resolve(parent_dim, screen_size);
                fixed_sum = fixed_sum + resolved as i128;
            },
        }
        i = i + 1;
    }
    proof {
        assert(children@.take(children@.len() as int) =~= children@);
    }

    if any_weight && weight_sum == 0 {
        return Err(LayoutError::ZeroTotalWeight);
    }

    let extent: i32 = match axis {
        Axis::Horizontal => parent_rect.w,
        Axis::Vertical => parent_rect.h,
    };
    let origin: i32 = match axis {
        Axis::Horizontal => parent_rect.x,
        Axis::Vertical => parent_rect.y,
    };
    let remaining: i128 = extent as i128 - fixed_sum;

    // Second pass: assign each child its rectangle at the running cursor and
    // visit it.
    let ghost full = flex_children_spec(
        m,
        children@,
        parent_rect,
        screen_size,
        axis,
        origin as int,
        remaining as int,
        weight_sum as int,
        counter,
        fuel as nat,
    );
    proof {
        assert(flex_node_spec(m, children@, parent_rect, screen_size, axis, counter, fuel as nat)
            == full);
        lemma_total_weight_nonneg(children@);
    }
    let ghost flat0 = flat@;
    let ghost tex0 = textured@;
    let ghost mut done_f: Seq<FlatPrimitive> = Seq::empty();
    let ghost mut done_t: Seq<TexturedPrimitive> = Seq::empty();
    let mut current: u32 = counter;
    let mut cursor: i128 = origin as i128;
    let mut j: usize = 0;
    proof {
        assert(children@.skip(0) =~= children@);
        assert(flat0 + done_f =~= flat0);
        assert(tex0 + done_t =~= tex0);
        assert(Seq::<FlatPrimitive>::empty() + full.flats =~= full.flats);
        assert(Seq::<TexturedPrimitive>::empty() + full.texs =~= full.texs);
        assert(full =~= outcome_prepend(done_f, done_t, full));
    }
    while j < children.len()
        invariant
            j <= children@.len(),
            parent_dim == parent_rect.spec_dimension(),
            weight_sum as int == total_weight(children@),
            weight_sum as int <= (children@.len() as int) * 0xffff_ffff,
            has_weight(children@) ==> weight_sum >= 1,
            -((children@.len() as int + 1) * 0x8000_0000) <= remaining as int
                <= (children@.len() as int + 1) * 0x8000_0000,
            -0x8000_0000 <= cursor as int,
            cursor as int <= 0x8000_0000 + (j as int) * 0x7fff_ffff,
            flat@ == flat0 + done_f,
            textured@ == tex0 + done_t,
            full == outcome_prepend(
                done_f,
                done_t,
                flex_children_spec(
                    m,
                    children@.skip(j as int),
                    parent_rect,
                    screen_size,
                    axis,
                    cursor as int,
                    remaining as int,
                    weight_sum as int,
                    current,
                    fuel as nat,
                ),
            ),
        decreases children@.len() - j,
    {
        let ghost tail = children@.skip(j as int);
        proof {
            assert(tail[0] == children@[j as int]);
        }
        let (size, child_id) = children[j];
        let length: i32 = match size {
            Size::Weight(weight) => {
                proof {
                    lemma_has_weight_member(children@, j as int);
                    lemma_mul_bounds(
                        remaining as int,
                        weight as int,
                        (children@.len() as int + 1) * 0x8000_0000,
                        0xffff_ffff,
                    );
                }
                let product: i128 = remaining * (weight as i128);
                let share: i128 = trunc_div_i128(product, weight_sum as i128);
                clamp_len_i128(share)
            },
            _ => {
                let resolved = size.resolve(parent_dim, screen_size);
                clamp0(resolved)
            },
        };
        let child_rect: Rect = match axis {
            Axis::Horizontal => Rect::new(
                sat_i128_to_i32(cursor),
                parent_rect.y,
                length,
                parent_rect.h,
            ),
            Axis::Vertical => Rect::new(
                parent_rect.x,
                sat_i128_to_i32(cursor),
                parent_rect.w,
                length,
            ),
        };
        proof {
            assert(length as int == clamp_len(
                flex_raw_len(
                    children@[j as int].0,
                    remaining as int,
                    weight_sum as int,
                    parent_dim,
                    screen_size,
                ),
            ));
            assert(child_rect == flex_child_rect(parent_rect, axis, cursor as int, length as int));
        }
        let ghost head = visit_node_spec(m, child_id, child_rect, screen_size, current, fuel as nat);
        let res = visit_node(nodes, child_id, child_rect, screen_size, current, fuel, flat, textured);
        match res {
            Ok(c) => {
                proof {
                    let rest = flex_children_spec(
                        m,
                        tail.drop_first(),
                        parent_rect,
                        screen_size,
                        axis,
                        cursor as int + length as int,
                        remaining as int,
                        weight_sum as int,
                        head.counter,
                        fuel as nat,
                    );
                    assert(flex_children_spec(
                        m,
                        tail,
                        parent_rect,
                        screen_size,
                        axis,
                        cursor as int,
                        remaining as int,
                        weight_sum as int,
                        current,
                        fuel as nat,
                    ) == outcome_prepend(head.flats, head.texs, rest));
                    assert(tail.drop_first() =~= children@.skip(j as int + 1));
                    lemma_prepend_prepend(done_f, done_t, head.flats, head.texs, rest);
                    assert(flat@ =~= (flat0 + done_f) + head.flats);
                    assert((flat0 + done_f) + head.flats =~= flat0 + (done_f + head.flats));
                    assert(textured@ =~= (tex0 + done_t) + head.texs);
                    assert((tex0 + done_t) + head.texs =~= tex0 + (done_t + head.texs));
                    done_f = done_f + head.flats;
                    done_t = done_t + head.texs;
                }
                current = c;
                cursor = cursor + length as i128;
                j = j + 1;
            },
            Err(e) => {
                proof {
                    assert(!flex_children_spec(
                        m,
                        tail,
                        parent_rect,
                        screen_size,
                        axis,
                        cursor as int,
                        remaining as int,
                        weight_sum as int,
                        current,
                        fuel as nat,
                    ).ok);
                }
                return Err(e);
            },
        }
    }
    proof {
        assert(children@.skip(children@.len() as int) =~= Seq::<(Size, NodeId)>::empty());
        lemma_prepend_empty(done_f, done_t, current);
    }
    Ok(current)
}

} // verus!
