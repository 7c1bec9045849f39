//! The scene graph: node kinds, layout rules, and the identifier-indexed
//! node store.
//!
//! A scene is an append-only table from `NodeId` to `Node` plus an optional
//! root.  Identifiers are handed out densely, in increasing order, starting
//! at zero, and are never reused.  A child reference that is absent from the
//! table is tolerated: the visitor skips it silently.

use vstd::prelude::*;
use std::collections::HashMap;

use crate::geometry::Color;
use crate::geometry::Dimension;
use crate::geometry::Ratio;
use crate::geometry::Rect;
use crate::geometry::ratio_apply;
use crate::geometry::ratio_scaled;
use crate::geometry::sat32;
use crate::geometry::sat_i128_to_i32;
use crate::geometry::trunc_div;
use crate::geometry::trunc_div_i128;
use crate::texture::TextureId;

verus! {

broadcast use vstd::std_specs::hash::group_hash_axioms;

pub type NodeId = u32;

/// A physical size: absolute pixels, a ratio of the parent's or the screen's
/// extent, or a flexible weight (meaningful only inside row/column
/// distribution).
#[derive(Clone, Copy, Debug, PartialEq, Eq, Structural)]
pub enum Size {
    /// Size in pixels; does not change when the parent size changes.
    Pixel(i32),
    /// Size relative to the parent node's width.
    ParentWidth(Ratio),
    /// Size relative to the parent node's height.
    ParentHeight(Ratio),
    /// Size relative to the entire screen width.
    ScreenWidth(Ratio),
    /// Size relative to the entire screen height.
    ScreenHeight(Ratio),
    /// A proportional share of the remaining space in a row or column.
    Weight(u32),
}

impl Size {
    /// The concrete length this size resolves to against a parent extent and
    /// the screen extent.  A weight resolves to its own (saturated) value;
    /// the row/column distribution never resolves weights this way.
    pub open spec fn spec_resolve(self, parent_size: Dimension, screen_size: Dimension) -> int {
        match self {
            Size::Pixel(pixel) => pixel as int,
            Size::ParentWidth(ratio) => ratio_scaled(parent_size.width as int, ratio),
            Size::ParentHeight(ratio) => ratio_scaled(parent_size.height as int, ratio),
            Size::ScreenWidth(ratio) => ratio_scaled(screen_size.width as int, ratio),
            Size::ScreenHeight(ratio) => ratio_scaled(screen_size.height as int, ratio),
            Size::Weight(weight) => sat32(weight as int),
        }
    }

    pub fn resolve(&self, parent_size: Dimension, screen_size: Dimension) -> (out: i32)
        ensures
            out as int == self.spec_resolve(parent_size, screen_size),
    {
        match self {
            Size::Pixel(pixel) => *pixel,
            Size::ParentWidth(ratio) => ratio_apply(parent_size.width, *ratio),
            Size::ParentHeight(ratio) => ratio_apply(parent_size.height, *ratio),
            Size::ScreenWidth(ratio) => ratio_apply(screen_size.width, *ratio),
            Size::ScreenHeight(ratio) => ratio_apply(screen_size.height, *ratio),
            Size::Weight(weight) => {
                if *weight > i32::MAX as u32 {
                    i32::MAX
                } else {
                    *weight as i32
                }
            },
        }
    }
}

/// A one-axis layout rule mapping a parent's origin and extent to a child's
/// origin and extent.
#[derive(Clone, Copy, Debug, PartialEq, Eq, Structural)]
pub enum Anchor {
    /// Anchor the node's start at the parent's start (left for horizontal,
    /// top for vertical); `pos` offsets toward the end direction.
    Start { pos: Size, size: Size },
    /// Anchor the node's center at the parent's center; positive `pos`
    /// offsets toward the end direction.
    Center { pos: Size, size: Size },
    /// Anchor the node's end at the parent's end; `pos` offsets toward the
    /// start direction.
    End { pos: Size, size: Size },
    /// Stretch the node across the parent, with a margin of `start` from the
    /// parent's start and `end` from the parent's end; the length is derived.
    Stretch { start: Size, end: Size },
}

impl Anchor {
    /// The (origin, length) pair this anchor resolves to along one axis,
    /// given the parent's origin and extent along that axis.  The origin is
    /// saturated into `i32`; a stretch length may be negative and is clamped
    /// only when a primitive is emitted.
    pub open spec fn spec_apply(
        self,
        parent_pos: int,
        parent_size_curr: int,
        parent_size: Dimension,
        screen_size: Dimension,
    ) -> (int, int) {
        match self {
            Anchor::Start { pos, size } => {
                (
                    sat32(parent_pos + pos.spec_resolve(parent_size, screen_size)),
                    size.spec_resolve(parent_size, screen_size),
                )
            },
            Anchor::Center { pos, size } => {
                let length = size.spec_resolve(parent_size, screen_size);
                (
                    sat32(
                        parent_pos + trunc_div(parent_size_curr, 2) + pos.spec_resolve(
                            parent_size,
                            screen_size,
                        ) - trunc_div(length, 2),
                    ),
                    length,
                )
            },
            Anchor::End { pos, size } => {
                let length = size.spec_resolve(parent_size, screen_size);
                (
                    sat32(
                        parent_pos + parent_size_curr - pos.spec_resolve(parent_size, screen_size)
                            - length,
                    ),
                    length,
                )
            },
            Anchor::Stretch { start, end } => {
                (
                    sat32(parent_pos + start.spec_resolve(parent_size, screen_size)),
                    sat32(
                        parent_size_curr - start.spec_resolve(parent_size, screen_size)
                            - end.spec_resolve(parent_size, screen_size),
                    ),
                )
            },
        }
    }

    pub fn apply(
        &self,
        parent_pos: i32,
        parent_size_curr: i32,
        parent_size: Dimension,
        screen_size: Dimension,
    ) -> (out: (i32, i32))
        ensures
            out.0 as int == self.spec_apply(
                parent_pos as int,
                parent_size_curr as int,
                parent_size,
                screen_size,
            ).0,
            out.1 as int == self.spec_apply(
                parent_pos as int,
                parent_size_curr as int,
                parent_size,
                screen_size,
            ).1,
    {
        match self {
            Anchor::Start { pos: start, size } => {
                let offset = start.resolve(parent_size, screen_size);
                let length = size.resolve(parent_size, screen_size);
                (sat_i128_to_i32(parent_pos as i128 + offset as i128), length)
            },
            Anchor::Center { pos, size } => {
                let offset = pos.resolve(parent_size, screen_size);
                let length = size.resolve(parent_size, screen_size);
                let half_parent = trunc_div_i128(parent_size_curr as i128, 2);
                let half_length = trunc_div_i128(length as i128, 2);
                (
                    sat_i128_to_i32(
                        parent_pos as i128 + half_parent + offset as i128 - half_length,
                    ),
                    length,
                )
            },
            Anchor::End { pos: end, size } => {
                let offset = end.resolve(parent_size, screen_size);
                let length = size.resolve(parent_size, screen_size);
                (
                    sat_i128_to_i32(
                        parent_pos as i128 + parent_size_curr as i128 - offset as i128
                            - length as i128,
                    ),
                    length,
                )
            },
            Anchor::Stretch { start, end } => {
                let start_margin = start.resolve(parent_size, screen_size);
                let end_margin = end.resolve(parent_size, screen_size);
                (
                    sat_i128_to_i32(parent_pos as i128 + start_margin as i128),
                    sat_i128_to_i32(
                        parent_size_curr as i128 - start_margin as i128 - end_margin as i128,
                    ),
                )
            },
        }
    }

    pub fn start(pos: Size, size: Size) -> (a: Anchor)
        ensures
            a == (Anchor::Start { pos, size }),
    {
        Anchor::Start { pos, size }
    }

    pub fn center(pos: Size, size: Size) -> (a: Anchor)
        ensures
            a == (Anchor::Center { pos, size }),
    {
        Anchor::Center { pos, size }
    }

    pub fn end(pos: Size, size: Size) -> (a: Anchor)
        ensures
            a == (Anchor::End { pos, size }),
    {
        Anchor::End { pos, size }
    }

    pub fn stretch(start: Size, end: Size) -> (a: Anchor)
        ensures
            a == (Anchor::Stretch { start, end }),
    {
        Anchor::Stretch { start, end }
    }
}

/// Position and size of a node: one anchor per axis.  The two axes never
/// interact.
#[derive(Clone, Copy, Debug, PartialEq, Eq, Structural)]
pub struct Position {
    pub horizontal: Anchor,
    pub vertical: Anchor,
}

impl Position {
    pub fn new(horizontal: Anchor, vertical: Anchor) -> (p: Position)
        ensures
            p.horizontal == horizontal,
            p.vertical == vertical,
    {
        Position { horizontal, vertical }
    }

    /// The rectangle this position resolves to against a parent rectangle
    /// and the screen extent: the horizontal anchor yields (x, w), the
    /// vertical anchor yields (y, h).
    pub open spec fn spec_apply(self, parent_rect: Rect, screen_size: Dimension) -> Rect {
        let horizontal = self.horizontal.spec_apply(
            parent_rect.x as int,
            parent_rect.w as int,
            parent_rect.spec_dimension(),
            screen_size,
        );
        let vertical = self.vertical.spec_apply(
            parent_rect.y as int,
            parent_rect.h as int,
            parent_rect.spec_dimension(),
            screen_size,
        );
        Rect {
            x: horizontal.0 as i32,
            y: vertical.0 as i32,
            w: horizontal.1 as i32,
            h: vertical.1 as i32,
        }
    }

    pub fn apply(&self, parent_rect: Rect, screen_size: Dimension) -> (r: Rect)
        ensures
            r == self.spec_apply(parent_rect, screen_size),
    {
        let (x, w) = self.horizontal.apply(
            parent_rect.x,
            parent_rect.w,
            parent_rect.dimension(),
            screen_size,
        );
        let (y, h) = self.vertical.apply(
            parent_rect.y,
            parent_rect.h,
            parent_rect.dimension(),
            screen_size,
        );
        Rect::new(x, y, w, h)
    }
}

/// A node in the scene tree.
#[derive(Clone, Debug)]
pub enum Node {
    /// A z-ordered stack: each child resolves its own rectangle directly
    /// against the layer's rectangle, and each child slot advances the
    /// shared draw-order counter by exactly one.
    Layer { inner: Vec<(Position, NodeId)> },
    /// Distributes the parent's height among its children, in order.
    Row { inner: Vec<(Size, NodeId)> },
    /// Distributes the parent's width among its children, in order.
    Column { inner: Vec<(Size, NodeId)> },
    /// Leaf: paints a flat rectangle.
    Rect { color: Color },
    /// Leaf: paints a textured rectangle.
    Texture { texture_id: TextureId },
    /// Leaf: occupies layout space but paints nothing.
    Empty,
}

/// The mathematical value of a node: child lists as sequences.
#[allow(inconsistent_fields)]
pub enum NodeView {
    Layer { children: Seq<(Position, NodeId)> },
    Row { children: Seq<(Size, NodeId)> },
    Column { children: Seq<(Size, NodeId)> },
    Rect { color: Color },
    Texture { texture_id: TextureId },
    Empty,
}

impl View for Node {
    type V = NodeView;

    open spec fn view(&self) -> NodeView {
        match self {
            Node::Layer { inner } => NodeView::Layer { children: inner@ },
            Node::Row { inner } => NodeView::Row { children: inner@ },
            Node::Column { inner } => NodeView::Column { children: inner@ },
            Node::Rect { color } => NodeView::Rect { color: *color },
            Node::Texture { texture_id } => NodeView::Texture { texture_id: *texture_id },
            Node::Empty => NodeView::Empty,
        }
    }
}

/// The node table, viewed value by value.
pub open spec fn node_map_view(m: Map<NodeId, Node>) -> Map<NodeId, NodeView> {
    Map::new(|id: NodeId| m.dom().contains(id), |id: NodeId| m[id]@)
}

/// How a scene's value relates to its fields, for the visitor's use.
pub(crate) proof fn scene_view_facts(s: &Scene)
    ensures
        s@.root == s.root_node,
        s@.nodes == node_map_view(s.nodes@),
{
}

/// The mathematical value of a scene: the node table, the designated root,
/// and the next identifier to hand out.
pub struct SceneView {
    pub nodes: Map<NodeId, NodeView>,
    pub root: Option<NodeId>,
    pub next_id: NodeId,
}

/// The scene: a node table and an optional root.  Build the tree with the
/// node constructors, then designate the root with `set_root`.
#[derive(Debug)]
pub struct Scene {
    pub(crate) last_id: NodeId,
    pub(crate) nodes: HashMap<NodeId, Node>,
    pub(crate) root_node: Option<NodeId>,
}

impl View for Scene {
    type V = SceneView;

    closed spec fn view(&self) -> SceneView {
        SceneView {
            nodes: node_map_view(self.nodes@),
            root: self.root_node,
            next_id: self.last_id,
        }
    }
}

impl Default for Scene {
    fn default() -> (s: Scene)
        ensures
            s@.nodes == Map::<NodeId, NodeView>::empty(),
            s@.root is None,
            s@.next_id == 0,
    {
        Scene { last_id: 0, nodes: HashMap::new(), root_node: None }
    }
}

impl Scene {
    /// Designates the root node; traversal starts here.
    pub fn set_root(&mut self, root_node: NodeId)
        ensures
            final(self)@.root == Some(root_node),
            final(self)@.nodes == old(self)@.nodes,
            final(self)@.next_id == old(self)@.next_id,
    {
        self.root_node = Some(root_node);
    }

    fn insert(&mut self, node: Node) -> (id: NodeId)
        requires
            old(self)@.next_id < NodeId::MAX,
        ensures
            id == old(self)@.next_id,
            final(self)@.next_id == id + 1,
            final(self)@.root == old(self)@.root,
            final(self)@.nodes == old(self)@.nodes.insert(id, node@),
    {
        let id = self.last_id;
        self.last_id = self.last_id + 1;
        self.nodes.insert(id, node);
        proof {
            assert(node_map_view(self.nodes@) =~= node_map_view(old(self).nodes@).insert(
                id,
                node@,
            ));
        }
        id
    }

    /// Inserts a layer node and returns its fresh identifier.
    pub fn layer_node(&mut self, inner: Vec<(Position, NodeId)>) -> (id: NodeId)
        requires
            old(self)@.next_id < NodeId::MAX,
        ensures
            id == old(self)@.next_id,
            final(self)@.next_id == id + 1,
            final(self)@.root == old(self)@.root,
            final(self)@.nodes == old(self)@.nodes.insert(id, NodeView::Layer { children: inner@ }),
    {
        let node = Node::Layer { inner };
        self.insert(node)
    }

    /// Inserts a row node (distributes the parent's height) and returns its
    /// fresh identifier.
    pub fn row_node(&mut self, inner: Vec<(Size, NodeId)>) -> (id: NodeId)
        requires
            old(self)@.next_id < NodeId::MAX,
        ensures
            id == old(self)@.next_id,
            final(self)@.next_id == id + 1,
            final(self)@.root == old(self)@.root,
            final(self)@.nodes == old(self)@.nodes.insert(id, NodeView::Row { children: inner@ }),
    {
        let node = Node::Row { inner };
        self.insert(node)
    }

    /// Inserts a column node (distributes the parent's width) and returns
    /// its fresh identifier.
    pub fn column_node(&mut self, inner: Vec<(Size, NodeId)>) -> (id: NodeId)
        requires
            old(self)@.next_id < NodeId::MAX,
        ensures
            id == old(self)@.next_id,
            final(self)@.next_id == id + 1,
            final(self)@.root == old(self)@.root,
            final(self)@.nodes == old(self)@.nodes.insert(id, NodeView::Column { children: inner@ }),
    {
        let node = Node::Column { inner };
        self.insert(node)
    }

    /// Inserts a flat-colored rectangle node and returns its fresh
    /// identifier.
    pub fn rect_node(&mut self, color: Color) -> (id: NodeId)
        requires
            old(self)@.next_id < NodeId::MAX,
        ensures
            id == old(self)@.next_id,
            final(self)@.next_id == id + 1,
            final(self)@.root == old(self)@.root,
            final(self)@.nodes == old(self)@.nodes.insert(id, NodeView::Rect { color }),
    {
        let node = Node::Rect { color };
        self.insert(node)
    }

    /// Inserts a textured rectangle node and returns its fresh identifier.
    pub fn texture_node(&mut self, texture_id: TextureId) -> (id: NodeId)
        requires
            old(self)@.next_id < NodeId::MAX,
        ensures
            id == old(self)@.next_id,
            final(self)@.next_id == id + 1,
            final(self)@.root == old(self)@.root,
            final(self)@.nodes == old(self)@.nodes.insert(id, NodeView::Texture { texture_id }),
    {
        let node = Node::Texture { texture_id };
        self.insert(node)
    }

    /// Inserts a spacer node and returns its fresh identifier.
    pub fn empty_node(&mut self) -> (id: NodeId)
        requires
            old(self)@.next_id < NodeId::MAX,
        ensures
            id == old(self)@.next_id,
            final(self)@.next_id == id + 1,
            final(self)@.root == old(self)@.root,
            final(self)@.nodes == old(self)@.nodes.insert(id, NodeView::Empty),
    {
        let node = Node::Empty;
        self.insert(node)
    }
}

} // verus!
