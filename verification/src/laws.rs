//! The engine's general laws, stated over the specification functions that
//! the executable resolvers and the visitor are proved to match.

use vstd::prelude::*;

use crate::geometry::Dimension;
use crate::geometry::Rect;
use crate::geometry::lemma_trunc_div_bound;
use crate::geometry::trunc_div;
use crate::layout::bump;
use crate::layout::fixed_total;
use crate::layout::flex_children_spec;
use crate::layout::flex_node_spec;
use crate::layout::flex_raw_len;
use crate::layout::has_weight;
use crate::layout::layer_children_spec;
use crate::layout::total_weight;
use crate::layout::visit_node_spec;
use crate::layout::Axis;
use crate::scene::Anchor;
use crate::scene::NodeId;
use crate::scene::NodeView;
use crate::scene::Position;
use crate::scene::Scene;
use crate::scene::Size;

verus! {

/// A pixel size is invariant: it resolves to its own value whatever the
/// parent and screen extents are.
pub proof fn lemma_pixel_resolution_invariant(
    pixel: i32,
    parent_a: Dimension,
    screen_a: Dimension,
    parent_b: Dimension,
    screen_b: Dimension,
)
    ensures
        Size::Pixel(pixel).spec_resolve(parent_a, screen_a) == pixel as int,
        Size::Pixel(pixel).spec_resolve(parent_a, screen_a) == Size::Pixel(pixel).spec_resolve(
            parent_b,
            screen_b,
        ),
{
}

/// A start anchor with a zero pixel offset puts the child's origin exactly
/// at the parent's origin, whatever the size.
pub proof fn lemma_start_at_parent_origin(
    size: Size,
    parent_pos: i32,
    parent_size_curr: i32,
    parent_size: Dimension,
    screen_size: Dimension,
)
    ensures
        (Anchor::Start { pos: Size::Pixel(0), size }).spec_apply(
            parent_pos as int,
            parent_size_curr as int,
            parent_size,
            screen_size,
        ).0 == parent_pos as int,
        (Anchor::Start { pos: Size::Pixel(0), size }).spec_apply(
            parent_pos as int,
            parent_size_curr as int,
            parent_size,
            screen_size,
        ).1 == size.spec_resolve(parent_size, screen_size),
{
}

/// A stretch anchor with zero margins is the identity on its axis: the
/// child takes exactly the parent's origin and extent.
pub proof fn lemma_stretch_zero_margins_identity(
    parent_pos: i32,
    parent_size_curr: i32,
    parent_size: Dimension,
    screen_size: Dimension,
)
    ensures
        (Anchor::Stretch { start: Size::Pixel(0), end: Size::Pixel(0) }).spec_apply(
            parent_pos as int,
            parent_size_curr as int,
            parent_size,
            screen_size,
        ) == (parent_pos as int, parent_size_curr as int),
{
}

/// A position that stretches both axes with zero margins resolves to the
/// parent rectangle itself.
pub proof fn lemma_full_stretch_identity(parent_rect: Rect, screen_size: Dimension)
    ensures
        (Position {
            horizontal: Anchor::Stretch { start: Size::Pixel(0), end: Size::Pixel(0) },
            vertical: Anchor::Stretch { start: Size::Pixel(0), end: Size::Pixel(0) },
        }).spec_apply(parent_rect, screen_size) == parent_rect,
{
}

/// How many `Weight` entries a child list holds.
pub open spec fn weight_count(children: Seq<(Size, NodeId)>) -> int
    decreases children.len(),
{
    if children.len() == 0 {
        0
    } else {
        weight_count(children.drop_last()) + if children.last().0 is Weight {
            1int
        } else {
            0int
        }
    }
}

/// A child list holds a weight entry exactly when its weight count is
/// positive, so the conservation law below speaks of precisely the lists on
/// which the resolver runs a weighted distribution.
pub proof fn lemma_has_weight_iff_counted(children: Seq<(Size, NodeId)>)
    ensures
        weight_count(children) >= 0,
        has_weight(children) <==> weight_count(children) >= 1,
    decreases children.len(),
{
    if children.len() > 0 {
        lemma_has_weight_iff_counted(children.drop_last());
    }
}

/// The sum of the truncated shares the weight entries of a child list take
/// of the remaining space.
pub open spec fn weighted_share_total(
    children: Seq<(Size, NodeId)>,
    remaining: int,
    weight_sum: int,
) -> int
    decreases children.len(),
{
    if children.len() == 0 {
        0
    } else {
        weighted_share_total(children.drop_last(), remaining, weight_sum) + match children.last().0 {
            Size::Weight(weight) => trunc_div(remaining * (weight as int), weight_sum),
            _ => 0,
        }
    }
}

/// The sum of the un-clamped lengths every distribution entry resolves to.
pub open spec fn raw_length_total(
    children: Seq<(Size, NodeId)>,
    remaining: int,
    weight_sum: int,
    parent_size: Dimension,
    screen_size: Dimension,
) -> int
    decreases children.len(),
{
    if children.len() == 0 {
        0
    } else {
        raw_length_total(
            children.drop_last(),
            remaining,
            weight_sum,
            parent_size,
            screen_size,
        ) + flex_raw_len(children.last().0, remaining, weight_sum, parent_size, screen_size)
    }
}

/// The un-clamped lengths split into the immediately resolved part and the
/// weighted shares.
proof fn lemma_raw_length_split(
    children: Seq<(Size, NodeId)>,
    remaining: int,
    weight_sum: int,
    parent_size: Dimension,
    screen_size: Dimension,
)
    ensures
        raw_length_total(children, remaining, weight_sum, parent_size, screen_size) == fixed_total(
            children,
            parent_size,
            screen_size,
        ) + weighted_share_total(children, remaining, weight_sum),
    decreases children.len(),
{
    if children.len() > 0 {
        lemma_raw_length_split(
            children.drop_last(),
            remaining,
            weight_sum,
            parent_size,
            screen_size,
        );
    }
}

/// The weighted shares, scaled by the weight sum, miss the proportional
/// split by less than one weight sum per weight entry.
proof fn lemma_weighted_share_bounds(
    children: Seq<(Size, NodeId)>,
    remaining: int,
    weight_sum: int,
)
    requires
        weight_sum >= 1,
    ensures
        weight_count(children) >= 0,
        weight_count(children) == 0 ==> weighted_share_total(children, remaining, weight_sum) == 0
            && total_weight(children) == 0,
        weight_count(children) >= 1 ==> remaining * total_weight(children) - weight_count(children)
            * weight_sum < weighted_share_total(children, remaining, weight_sum) * weight_sum
            < remaining * total_weight(children) + weight_count(children) * weight_sum,
    decreases children.len(),
{
    if children.len() > 0 {
        let rest = children.drop_last();
        lemma_weighted_share_bounds(rest, remaining, weight_sum);
        let d_rest = weighted_share_total(rest, remaining, weight_sum);
        let w_rest = total_weight(rest);
        let k_rest = weight_count(rest);
        match children.last().0 {
            Size::Weight(weight) => {
                let product = remaining * (weight as int);
                let share = trunc_div(product, weight_sum);
                lemma_trunc_div_bound(product, weight_sum);
                assert(weighted_share_total(children, remaining, weight_sum) == d_rest + share);
                assert(total_weight(children) == w_rest + weight as int);
                assert(weight_count(children) == k_rest + 1);
                assert(remaining * (w_rest + weight as int) - (k_rest + 1) * weight_sum < (d_rest
                    + share) * weight_sum < remaining * (w_rest + weight as int) + (k_rest + 1)
                    * weight_sum) by (nonlinear_arith)
                    requires
                        product == remaining * (weight as int),
                        product - weight_sum < share * weight_sum < product + weight_sum,
                        k_rest == 0 ==> d_rest == 0 && w_rest == 0,
                        k_rest >= 1 ==> remaining * w_rest - k_rest * weight_sum < d_rest
                            * weight_sum < remaining * w_rest + k_rest * weight_sum,
                        k_rest >= 0,
                ;
            },
            _ => {
            },
        }
    }
}

/// Conservation of the distribution axis: for a row or column that holds at
/// least one weight entry (with a positive weight sum), the un-clamped child
/// lengths sum to the parent's axis extent up to a truncation error strictly
/// smaller than the number of weight entries.
pub proof fn lemma_distribution_conservation(
    children: Seq<(Size, NodeId)>,
    extent: int,
    parent_size: Dimension,
    screen_size: Dimension,
)
    requires
        weight_count(children) >= 1,
        total_weight(children) >= 1,
    ensures
        ({
            let remaining = extent - fixed_total(children, parent_size, screen_size);
            let sum = raw_length_total(
                children,
                remaining,
                total_weight(children),
                parent_size,
                screen_size,
            );
            extent - weight_count(children) < sum < extent + weight_count(children)
        }),
{
    let weight_sum = total_weight(children);
    let remaining = extent - fixed_total(children, parent_size, screen_size);
    let shares = weighted_share_total(children, remaining, weight_sum);
    let count = weight_count(children);
    lemma_raw_length_split(children, remaining, weight_sum, parent_size, screen_size);
    lemma_weighted_share_bounds(children, remaining, weight_sum);
    assert(remaining * weight_sum - count * weight_sum < shares * weight_sum < remaining
        * weight_sum + count * weight_sum);
    assert(remaining - count < shares < remaining + count) by (nonlinear_arith)
        requires
            weight_sum >= 1,
            remaining * weight_sum - count * weight_sum < shares * weight_sum < remaining
                * weight_sum + count * weight_sum,
    ;
}

/// In a list of equal weights, the weight sum is the count times the weight.
proof fn lemma_uniform_weight_total(children: Seq<(Size, NodeId)>, weight: u32)
    requires
        forall|j: int| 0 <= j < children.len() ==> children[j].0 == Size::Weight(weight),
    ensures
        total_weight(children) == children.len() * (weight as int),
        weight_count(children) == children.len(),
    decreases children.len(),
{
    if children.len() > 0 {
        lemma_uniform_weight_total(children.drop_last(), weight);
        assert(children.len() * (weight as int) == (children.len() - 1) * (weight as int) + (
        weight as int)) by (nonlinear_arith);
    }
}

/// Fairness under truncation: when every entry of a distribution carries
/// the same positive weight, every entry resolves to the same share, and
/// that share times the number of entries misses the remaining space by
/// less than one pixel per entry (the share is within one pixel of the
/// exact equal split).
pub proof fn lemma_equal_weight_fairness(
    children: Seq<(Size, NodeId)>,
    remaining: int,
    weight: u32,
    parent_size: Dimension,
    screen_size: Dimension,
    i: int,
)
    requires
        forall|j: int| 0 <= j < children.len() ==> children[j].0 == Size::Weight(weight),
        weight >= 1,
        0 <= i < children.len(),
    ensures
        ({
            let count = children.len() as int;
            let share = flex_raw_len(
                children[i].0,
                remaining,
                total_weight(children),
                parent_size,
                screen_size,
            );
            &&& share == trunc_div(remaining * (weight as int), count * (weight as int))
            &&& remaining - count < share * count < remaining + count
        }),
{
    let count = children.len() as int;
    lemma_uniform_weight_total(children, weight);
    let weight_sum = count * (weight as int);
    assert(weight_sum >= 1) by (nonlinear_arith)
        requires
            weight_sum == count * (weight as int),
            count >= 1,
            weight >= 1,
    ;
    let product = remaining * (weight as int);
    let share = trunc_div(product, weight_sum);
    lemma_trunc_div_bound(product, weight_sum);
    assert(product - weight_sum < share * weight_sum < product + weight_sum);
    assert(remaining - count < share * count < remaining + count) by (nonlinear_arith)
        requires
            weight >= 1,
            count >= 1,
            weight_sum == count * (weight as int),
            product == remaining * (weight as int),
            product - weight_sum < share * weight_sum < product + weight_sum,
    ;
}

/// Whether the subtree reached from a node contains no layer, within the
/// visitor's depth budget.
pub open spec fn layer_free(nodes: Map<NodeId, NodeView>, id: NodeId, fuel: nat) -> bool
    decreases fuel, 0nat, 0nat,
{
    if fuel == 0 || !nodes.dom().contains(id) {
        true
    } else {
        match nodes[id] {
            NodeView::Layer { children } => false,
            NodeView::Row { children } => flex_layer_free(nodes, children, (fuel - 1) as nat),
            NodeView::Column { children } => flex_layer_free(nodes, children, (fuel - 1) as nat),
            _ => true,
        }
    }
}

/// Whether every subtree under a row's or column's children is layer-free.
pub open spec fn flex_layer_free(
    nodes: Map<NodeId, NodeView>,
    children: Seq<(Size, NodeId)>,
    fuel: nat,
) -> bool
    decreases fuel, 1nat, children.len(),
{
    if children.len() == 0 {
        true
    } else {
        layer_free(nodes, children[0].1, fuel) && flex_layer_free(
            nodes,
            children.drop_first(),
            fuel,
        )
    }
}

/// A layer-free subtree never touches the draw-order counter.
pub proof fn lemma_layer_free_keeps_counter(
    nodes: Map<NodeId, NodeView>,
    id: NodeId,
    rect: Rect,
    screen_size: Dimension,
    counter: u32,
    fuel: nat,
)
    requires
        layer_free(nodes, id, fuel),
    ensures
        visit_node_spec(nodes, id, rect, screen_size, counter, fuel).counter == counter,
    decreases fuel, 0nat, 0nat,
{
    if fuel == 0 || !nodes.dom().contains(id) {
    } else {
        match nodes[id] {
            NodeView::Row { children } => {
                lemma_flex_node_keeps_counter(
                    nodes,
                    children,
                    rect,
                    screen_size,
                    Axis::Vertical,
                    counter,
                    (fuel - 1) as nat,
                );
            },
            NodeView::Column { children } => {
                lemma_flex_node_keeps_counter(
                    nodes,
                    children,
                    rect,
                    screen_size,
                    Axis::Horizontal,
                    counter,
                    (fuel - 1) as nat,
                );
            },
            _ => {
            },
        }
    }
}

proof fn lemma_flex_node_keeps_counter(
    nodes: Map<NodeId, NodeView>,
    children: Seq<(Size, NodeId)>,
    parent_rect: Rect,
    screen_size: Dimension,
    axis: Axis,
    counter: u32,
    fuel: nat,
)
    requires
        flex_layer_free(nodes, children, fuel),
    ensures
        flex_node_spec(nodes, children, parent_rect, screen_size, axis, counter, fuel).counter
            == counter,
    decreases fuel, 2nat, 0nat,
{
    let weight_sum = total_weight(children);
    if has_weight(children) && weight_sum == 0 {
    } else {
        let extent = match axis {
            Axis::Horizontal => parent_rect.w as int,
            Axis::Vertical => parent_rect.h as int,
        };
        let origin = match axis {
            Axis::Horizontal => parent_rect.x as int,
            Axis::Vertical => parent_rect.y as int,
        };
        let remaining = extent - fixed_total(children, parent_rect.spec_dimension(), screen_size);
        lemma_flex_children_keep_counter(
            nodes,
            children,
            parent_rect,
            screen_size,
            axis,
            origin,
            remaining,
            weight_sum,
            counter,
            fuel,
        );
    }
}

proof fn lemma_flex_children_keep_counter(
    nodes: Map<NodeId, NodeView>,
    children: Seq<(Size, NodeId)>,
    parent_rect: Rect,
    screen_size: Dimension,
    axis: Axis,
    cursor: int,
    remaining: int,
    weight_sum: int,
    counter: u32,
    fuel: nat,
)
    requires
        flex_layer_free(nodes, children, fuel),
    ensures
        flex_children_spec(
            nodes,
            children,
            parent_rect,
            screen_size,
            axis,
            cursor,
            remaining,
            weight_sum,
            counter,
            fuel,
        ).counter == counter,
    decreases fuel, 1nat, children.len(),
{
    if children.len() == 0 {
    } else {
        let length = crate::geometry::clamp_len(
            flex_raw_len(
                children[0].0,
                remaining,
                weight_sum,
                parent_rect.spec_dimension(),
                screen_size,
            ),
        );
        let child_rect = crate::layout::flex_child_rect(parent_rect, axis, cursor, length);
        lemma_layer_free_keeps_counter(
            nodes,
            children[0].1,
            child_rect,
            screen_size,
            counter,
            fuel,
        );
        let head = visit_node_spec(nodes, children[0].1, child_rect, screen_size, counter, fuel);
        if head.ok {
            lemma_flex_children_keep_counter(
                nodes,
                children.drop_first(),
                parent_rect,
                screen_size,
                axis,
                cursor + length,
                remaining,
                weight_sum,
                head.counter,
                fuel,
            );
        }
    }
}

/// The draw-order counter advances by exactly one per layer slot: a layer
/// whose children's subtrees contain no nested layer advances the counter
/// by exactly its number of children, however large those subtrees are, and
/// whether or not the referenced nodes exist.
pub proof fn lemma_layer_counter_per_slot(
    nodes: Map<NodeId, NodeView>,
    children: Seq<(Position, NodeId)>,
    rect: Rect,
    screen_size: Dimension,
    counter: u32,
    fuel: nat,
)
    requires
        forall|i: int| 0 <= i < children.len() ==> layer_free(nodes, #[trigger] children[i].1, fuel),
        counter + children.len() <= u32::MAX,
        layer_children_spec(nodes, children, rect, screen_size, counter, fuel).ok,
    ensures
        layer_children_spec(nodes, children, rect, screen_size, counter, fuel).counter == counter
            + children.len(),
    decreases children.len(),
{
    if children.len() > 0 {
        let child_rect = children[0].0.spec_apply(rect, screen_size);
        lemma_layer_free_keeps_counter(
            nodes,
            children[0].1,
            child_rect,
            screen_size,
            counter,
            fuel,
        );
        let head = visit_node_spec(nodes, children[0].1, child_rect, screen_size, counter, fuel);
        assert(head.ok);
        assert(head.counter == counter);
        assert(bump(counter) == counter + 1);
        assert(forall|i: int|
            0 <= i < children.drop_first().len() ==> layer_free(
                nodes,
                #[trigger] children.drop_first()[i].1,
                fuel,
            ));
        lemma_layer_counter_per_slot(
            nodes,
            children.drop_first(),
            rect,
            screen_size,
            bump(counter),
            fuel,
        );
    }
}

/// Whether every primitive of an outcome carries a z index in the interval
/// from the counter before the walk to the counter after it.
pub open spec fn draw_order_bounded(out: crate::layout::VisitOutcome, counter: u32) -> bool {
    &&& out.counter >= counter
    &&& forall|i: int|
        0 <= i < out.flats.len() ==> counter <= (#[trigger] out.flats[i]).z <= out.counter
    &&& forall|i: int|
        0 <= i < out.texs.len() ==> counter <= (#[trigger] out.texs[i]).z <= out.counter
}

/// Prepending primitives bounded by an interval below the rest's keeps the
/// whole outcome bounded.
proof fn lemma_prepend_bounded(
    flats: Seq<crate::layout::FlatPrimitive>,
    texs: Seq<crate::layout::TexturedPrimitive>,
    rest: crate::layout::VisitOutcome,
    counter: u32,
    mid: u32,
)
    requires
        counter <= mid <= rest.counter,
        forall|i: int| 0 <= i < flats.len() ==> counter <= (#[trigger] flats[i]).z <= mid,
        forall|i: int| 0 <= i < texs.len() ==> counter <= (#[trigger] texs[i]).z <= mid,
        draw_order_bounded(rest, mid),
    ensures
        draw_order_bounded(crate::layout::outcome_prepend(flats, texs, rest), counter),
{
    let out = crate::layout::outcome_prepend(flats, texs, rest);
    assert forall|i: int| 0 <= i < out.flats.len() implies counter <= (#[trigger] out.flats[i]).z
        <= out.counter by {
        if i < flats.len() {
            assert(out.flats[i] == flats[i]);
        } else {
            assert(out.flats[i] == rest.flats[i - flats.len()]);
        }
    }
    assert forall|i: int| 0 <= i < out.texs.len() implies counter <= (#[trigger] out.texs[i]).z
        <= out.counter by {
        if i < texs.len() {
            assert(out.texs[i] == texs[i]);
        } else {
            assert(out.texs[i] == rest.texs[i - texs.len()]);
        }
    }
}

/// The draw-order counter never decreases, and every primitive a subtree
/// emits carries a z index between the counter before the walk and the
/// counter after it: the final counter bounds the depth range a renderer
/// must provision.
pub proof fn lemma_draw_order_bounded(
    nodes: Map<NodeId, NodeView>,
    id: NodeId,
    rect: Rect,
    screen_size: Dimension,
    counter: u32,
    fuel: nat,
)
    ensures
        draw_order_bounded(visit_node_spec(nodes, id, rect, screen_size, counter, fuel), counter),
    decreases fuel, 0nat, 0nat,
{
    if fuel == 0 || !nodes.dom().contains(id) {
    } else {
        match nodes[id] {
            NodeView::Layer { children } => {
                lemma_layer_draw_order_bounded(
                    nodes,
                    children,
                    rect,
                    screen_size,
                    counter,
                    (fuel - 1) as nat,
                );
            },
            NodeView::Row { children } => {
                lemma_flex_node_draw_order_bounded(
                    nodes,
                    children,
                    rect,
                    screen_size,
                    Axis::Vertical,
                    counter,
                    (fuel - 1) as nat,
                );
            },
            NodeView::Column { children } => {
                lemma_flex_node_draw_order_bounded(
                    nodes,
                    children,
                    rect,
                    screen_size,
                    Axis::Horizontal,
                    counter,
                    (fuel - 1) as nat,
                );
            },
            _ => {
            },
        }
    }
}

proof fn lemma_layer_draw_order_bounded(
    nodes: Map<NodeId, NodeView>,
    children: Seq<(Position, NodeId)>,
    rect: Rect,
    screen_size: Dimension,
    counter: u32,
    fuel: nat,
)
    ensures
        draw_order_bounded(
            layer_children_spec(nodes, children, rect, screen_size, counter, fuel),
            counter,
        ),
    decreases fuel, 1nat, children.len(),
{
    if children.len() == 0 {
    } else {
        let child_rect = children[0].0.spec_apply(rect, screen_size);
        lemma_draw_order_bounded(nodes, children[0].1, child_rect, screen_size, counter, fuel);
        let head = visit_node_spec(nodes, children[0].1, child_rect, screen_size, counter, fuel);
        if head.ok {
            lemma_layer_draw_order_bounded(
                nodes,
                children.drop_first(),
                rect,
                screen_size,
                bump(head.counter),
                fuel,
            );
            let rest = layer_children_spec(
                nodes,
                children.drop_first(),
                rect,
                screen_size,
                bump(head.counter),
                fuel,
            );
            lemma_prepend_bounded(head.flats, head.texs, rest, counter, head.counter);
        }
    }
}

proof fn lemma_flex_node_draw_order_bounded(
    nodes: Map<NodeId, NodeView>,
    children: Seq<(Size, NodeId)>,
    parent_rect: Rect,
    screen_size: Dimension,
    axis: Axis,
    counter: u32,
    fuel: nat,
)
    ensures
        draw_order_bounded(
            flex_node_spec(nodes, children, parent_rect, screen_size, axis, counter, fuel),
            counter,
        ),
    decreases fuel, 2nat, 0nat,
{
    let weight_sum = total_weight(children);
    if has_weight(children) && weight_sum == 0 {
    } else {
        let extent = match axis {
            Axis::Horizontal => parent_rect.w as int,
            Axis::Vertical => parent_rect.h as int,
        };
        let origin = match axis {
            Axis::Horizontal => parent_rect.x as int,
            Axis::Vertical => parent_rect.y as int,
        };
        let remaining = extent - fixed_total(children, parent_rect.spec_dimension(), screen_size);
        lemma_flex_children_draw_order_bounded(
            nodes,
            children,
            parent_rect,
            screen_size,
            axis,
            origin,
            remaining,
            weight_sum,
            counter,
            fuel,
        );
    }
}

proof fn lemma_flex_children_draw_order_bounded(
    nodes: Map<NodeId, NodeView>,
    children: Seq<(Size, NodeId)>,
    parent_rect: Rect,
    screen_size: Dimension,
    axis: Axis,
    cursor: int,
    remaining: int,
    weight_sum: int,
    counter: u32,
    fuel: nat,
)
    ensures
        draw_order_bounded(
            flex_children_spec(
                nodes,
                children,
                parent_rect,
                screen_size,
                axis,
                cursor,
                remaining,
                weight_sum,
                counter,
                fuel,
            ),
            counter,
        ),
    decreases fuel, 1nat, children.len(),
{
    if children.len() == 0 {
    } else {
        let length = crate::geometry::clamp_len(
            flex_raw_len(
                children[0].0,
                remaining,
                weight_sum,
                parent_rect.spec_dimension(),
                screen_size,
            ),
        );
        let child_rect = crate::layout::flex_child_rect(parent_rect, axis, cursor, length);
        lemma_draw_order_bounded(nodes, children[0].1, child_rect, screen_size, counter, fuel);
        let head = visit_node_spec(nodes, children[0].1, child_rect, screen_size, counter, fuel);
        if head.ok {
            lemma_flex_children_draw_order_bounded(
                nodes,
                children.drop_first(),
                parent_rect,
                screen_size,
                axis,
                cursor + length,
                remaining,
                weight_sum,
                head.counter,
                fuel,
            );
            let rest = flex_children_spec(
                nodes,
                children.drop_first(),
                parent_rect,
                screen_size,
                axis,
                cursor + length,
                remaining,
                weight_sum,
                head.counter,
                fuel,
            );
            lemma_prepend_bounded(head.flats, head.texs, rest, counter, head.counter);
        }
    }
}

/// Every z index a full traversal emits lies below the final draw-order
/// counter it reports.
pub proof fn lemma_scene_draw_order_bounded(scene: Scene, screen_size: Dimension)
    ensures
        draw_order_bounded(scene.spec_visit(screen_size), 0),
{
    match scene@.root {
        None => {
        },
        Some(root) => {
            lemma_draw_order_bounded(
                scene@.nodes,
                root,
                crate::layout::screen_rect_spec(screen_size),
                screen_size,
                0,
                crate::layout::fuel_for(scene@.nodes.len()),
            );
        },
    }
}

/// Determinism: a traversal's outcome is a function of the scene's value
/// and the screen extent alone, so two scenes of equal value resolve to
/// bit-identical primitive lists.
pub proof fn lemma_visit_deterministic(a: Scene, b: Scene, screen_size: Dimension)
    requires
        a@ == b@,
    ensures
        a.spec_visit(screen_size) == b.spec_visit(screen_size),
{
}

} // verus!
