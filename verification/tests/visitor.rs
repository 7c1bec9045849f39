use guiug::Anchor;
use guiug::Color;
use guiug::Dimension;
use guiug::FlatPrimitive;
use guiug::LayoutError;
use guiug::Position;
use guiug::Ratio;
use guiug::Scene;
use guiug::Size;

fn full() -> Position {
    Position::new(
        Anchor::stretch(Size::Pixel(0), Size::Pixel(0)),
        Anchor::stretch(Size::Pixel(0), Size::Pixel(0)),
    )
}

fn rgba(r: f32, g: f32, b: f32, a: f32) -> Color {
    Color::new(r.to_bits(), g.to_bits(), b.to_bits(), a.to_bits())
}

#[test]
fn single_rect_in_layer_emits_one_primitive() {
    let mut scene = Scene::default();
    let red = rgba(1.0, 0.0, 0.0, 1.0);
    let rect = scene.rect_node(red);
    let root = scene.layer_node(vec![(
        Position::new(
            Anchor::start(Size::Pixel(10), Size::Pixel(50)),
            Anchor::start(Size::Pixel(20), Size::Pixel(60)),
        ),
        rect,
    )]);
    scene.set_root(root);
    let lists = scene.visit(Dimension::new(800, 600)).unwrap();
    assert_eq!(
        lists.flat,
        vec![FlatPrimitive { x: 10, y: 20, z: 0, width: 50, height: 60, color: red }]
    );
    assert!(lists.textured.is_empty());
    assert_eq!(lists.draw_order_end, 1);
}

#[test]
fn unset_root_draws_nothing() {
    let mut scene = Scene::default();
    let _ = scene.rect_node(rgba(0.5, 0.5, 0.5, 1.0));
    let lists = scene.visit(Dimension::new(800, 600)).unwrap();
    assert!(lists.flat.is_empty());
    assert!(lists.textured.is_empty());
    assert_eq!(lists.draw_order_end, 0);
}

#[test]
fn dangling_reference_is_skipped_but_advances_draw_order() {
    let mut scene = Scene::default();
    let rect = scene.rect_node(rgba(0.0, 1.0, 0.0, 1.0));
    let root = scene.layer_node(vec![(full(), 999), (full(), rect)]);
    scene.set_root(root);
    let lists = scene.visit(Dimension::new(800, 600)).unwrap();
    // The dangling slot produced nothing, yet the counter moved past it.
    assert_eq!(lists.flat.len(), 1);
    assert_eq!(lists.flat[0].z, 1);
    assert_eq!(lists.draw_order_end, 2);
}

#[test]
fn column_splits_width_equally_between_equal_weights() {
    let mut scene = Scene::default();
    let a = scene.rect_node(rgba(1.0, 0.0, 0.0, 1.0));
    let b = scene.rect_node(rgba(0.0, 0.0, 1.0, 1.0));
    let root = scene.column_node(vec![(Size::Weight(1), a), (Size::Weight(1), b)]);
    scene.set_root(root);
    let lists = scene.visit(Dimension::new(100, 40)).unwrap();
    assert_eq!(lists.flat.len(), 2);
    assert_eq!((lists.flat[0].x, lists.flat[0].width), (0, 50));
    assert_eq!((lists.flat[1].x, lists.flat[1].width), (50, 50));
    // The column spans the parent's full height for every child.
    assert_eq!((lists.flat[0].y, lists.flat[0].height), (0, 40));
    assert_eq!((lists.flat[1].y, lists.flat[1].height), (0, 40));
}

#[test]
fn row_distributes_height_not_width() {
    let mut scene = Scene::default();
    let a = scene.rect_node(rgba(1.0, 1.0, 1.0, 1.0));
    let b = scene.rect_node(rgba(0.0, 0.0, 0.0, 1.0));
    let root = scene.row_node(vec![(Size::Weight(1), a), (Size::Weight(1), b)]);
    scene.set_root(root);
    let lists = scene.visit(Dimension::new(100, 40)).unwrap();
    assert_eq!(lists.flat.len(), 2);
    // Height is partitioned; width stays the parent's.
    assert_eq!((lists.flat[0].y, lists.flat[0].height), (0, 20));
    assert_eq!((lists.flat[1].y, lists.flat[1].height), (20, 20));
    assert_eq!((lists.flat[0].x, lists.flat[0].width), (0, 100));
    assert_eq!((lists.flat[1].x, lists.flat[1].width), (0, 100));
}

#[test]
fn weighted_split_truncates_and_leaves_gap_at_far_edge() {
    let mut scene = Scene::default();
    let a = scene.rect_node(rgba(0.1, 0.0, 0.0, 1.0));
    let b = scene.rect_node(rgba(0.2, 0.0, 0.0, 1.0));
    let c = scene.rect_node(rgba(0.3, 0.0, 0.0, 1.0));
    let root = scene.column_node(vec![
        (Size::Weight(1), a),
        (Size::Weight(1), b),
        (Size::Weight(1), c),
    ]);
    scene.set_root(root);
    let lists = scene.visit(Dimension::new(100, 10)).unwrap();
    // 100 / 3 truncates to 33 per child: a 1px gap remains at the far edge.
    let widths: Vec<i32> = lists.flat.iter().map(|p| p.width).collect();
    assert_eq!(widths, vec![33, 33, 33]);
    let xs: Vec<i32> = lists.flat.iter().map(|p| p.x).collect();
    assert_eq!(xs, vec![0, 33, 66]);
    // Conservation: the lengths sum to the parent extent up to a truncation
    // error smaller than the number of weight entries.
    let sum: i32 = widths.iter().sum();
    assert!(100 - sum >= 0 && 100 - sum < 3);
}

#[test]
fn mixed_fixed_and_weighted_children_share_what_remains() {
    let mut scene = Scene::default();
    let fixed = scene.rect_node(rgba(1.0, 0.0, 0.0, 1.0));
    let w1 = scene.rect_node(rgba(0.0, 1.0, 0.0, 1.0));
    let w2 = scene.rect_node(rgba(0.0, 0.0, 1.0, 1.0));
    let root = scene.column_node(vec![
        (Size::Pixel(40), fixed),
        (Size::Weight(1), w1),
        (Size::Weight(2), w2),
    ]);
    scene.set_root(root);
    let lists = scene.visit(Dimension::new(100, 10)).unwrap();
    let spans: Vec<(i32, i32)> = lists.flat.iter().map(|p| (p.x, p.width)).collect();
    // 60 pixels remain; weight 1 takes 20, weight 2 takes 40.
    assert_eq!(spans, vec![(0, 40), (40, 20), (60, 40)]);
}

#[test]
fn ratio_sized_child_resolves_against_parent_extent() {
    let mut scene = Scene::default();
    let a = scene.rect_node(rgba(0.0, 1.0, 1.0, 1.0));
    let b = scene.empty_node();
    let root = scene.column_node(vec![
        (Size::ParentWidth(Ratio::new(1, 4)), a),
        (Size::Weight(1), b),
    ]);
    scene.set_root(root);
    let lists = scene.visit(Dimension::new(200, 10)).unwrap();
    assert_eq!((lists.flat[0].x, lists.flat[0].width), (0, 50));
}

#[test]
fn empty_node_occupies_space_but_paints_nothing() {
    let mut scene = Scene::default();
    let a = scene.rect_node(rgba(1.0, 0.0, 0.0, 1.0));
    let spacer = scene.empty_node();
    let b = scene.rect_node(rgba(0.0, 1.0, 0.0, 1.0));
    let root = scene.column_node(vec![
        (Size::Pixel(10), a),
        (Size::Pixel(30), spacer),
        (Size::Pixel(10), b),
    ]);
    scene.set_root(root);
    let lists = scene.visit(Dimension::new(100, 10)).unwrap();
    assert_eq!(lists.flat.len(), 2);
    // The spacer's 30 pixels separate the two rectangles.
    assert_eq!((lists.flat[0].x, lists.flat[1].x), (0, 40));
}

#[test]
fn zero_weight_sum_with_weight_entry_is_a_configuration_error() {
    let mut scene = Scene::default();
    let a = scene.rect_node(rgba(1.0, 0.0, 0.0, 1.0));
    let root = scene.column_node(vec![(Size::Weight(0), a)]);
    scene.set_root(root);
    assert_eq!(
        scene.visit(Dimension::new(100, 10)),
        Err(LayoutError::ZeroTotalWeight)
    );
}

#[test]
fn zero_weight_sum_error_surfaces_from_nested_containers() {
    let mut scene = Scene::default();
    let a = scene.rect_node(rgba(1.0, 0.0, 0.0, 1.0));
    let bad = scene.row_node(vec![(Size::Weight(0), a)]);
    let root = scene.layer_node(vec![(full(), bad)]);
    scene.set_root(root);
    assert_eq!(
        scene.visit(Dimension::new(100, 10)),
        Err(LayoutError::ZeroTotalWeight)
    );
}

#[test]
fn column_without_weights_needs_no_weight_sum() {
    let mut scene = Scene::default();
    let a = scene.rect_node(rgba(1.0, 0.0, 0.0, 1.0));
    let root = scene.column_node(vec![(Size::Pixel(30), a)]);
    scene.set_root(root);
    assert!(scene.visit(Dimension::new(100, 10)).is_ok());
}

#[test]
fn layer_advances_draw_order_once_per_slot_regardless_of_subtree_size() {
    let mut scene = Scene::default();
    let first = scene.rect_node(rgba(1.0, 0.0, 0.0, 1.0));
    // The middle child is a deeply structured column-of-rows tree of many
    // leaves; rows and columns never touch the counter.
    let mut columns = Vec::new();
    for _ in 0..10 {
        let mut leaves = Vec::new();
        for _ in 0..5 {
            leaves.push((Size::Weight(1), scene.rect_node(rgba(0.0, 1.0, 0.0, 1.0))));
        }
        columns.push((Size::Weight(1), scene.row_node(leaves)));
    }
    let middle = scene.column_node(columns);
    let last = scene.rect_node(rgba(0.0, 0.0, 1.0, 1.0));
    let root = scene.layer_node(vec![(full(), first), (full(), middle), (full(), last)]);
    scene.set_root(root);
    let lists = scene.visit(Dimension::new(1000, 1000)).unwrap();
    assert_eq!(lists.flat.len(), 52);
    assert_eq!(lists.draw_order_end, 3);
    // Every leaf of the middle subtree shares the z index of its slot.
    assert_eq!(lists.flat[0].z, 0);
    for primitive in &lists.flat[1..51] {
        assert_eq!(primitive.z, 1);
    }
    assert_eq!(lists.flat[51].z, 2);
}

#[test]
fn nested_layers_keep_advancing_the_shared_counter() {
    let mut scene = Scene::default();
    let inner_rect = scene.rect_node(rgba(0.0, 1.0, 0.0, 1.0));
    let inner = scene.layer_node(vec![(full(), inner_rect)]);
    let outer_rect = scene.rect_node(rgba(0.0, 0.0, 1.0, 1.0));
    let root = scene.layer_node(vec![(full(), inner), (full(), outer_rect)]);
    scene.set_root(root);
    let lists = scene.visit(Dimension::new(100, 100)).unwrap();
    // The inner layer's slot bumped the counter before the outer's second
    // slot was numbered.
    assert_eq!(lists.flat[0].z, 0);
    assert_eq!(lists.flat[1].z, 2);
    assert_eq!(lists.draw_order_end, 3);
}

#[test]
fn resolving_twice_is_bit_identical() {
    let mut scene = Scene::default();
    let a = scene.rect_node(rgba(0.25, 0.5, 0.75, 1.0));
    let b = scene.texture_node(3);
    let column = scene.column_node(vec![(Size::Weight(2), a), (Size::Weight(3), b)]);
    let root = scene.layer_node(vec![(full(), column)]);
    scene.set_root(root);
    let screen = Dimension::new(1024, 768);
    let first = scene.visit(screen).unwrap();
    let second = scene.visit(screen).unwrap();
    assert_eq!(first.flat, second.flat);
    assert_eq!(first.textured, second.textured);
    assert_eq!(first.draw_order_end, second.draw_order_end);
}

#[test]
fn negative_stretch_is_clamped_only_at_emission() {
    let mut scene = Scene::default();
    let rect = scene.rect_node(rgba(1.0, 1.0, 0.0, 1.0));
    // Margins exceed the parent: the resolved width is negative, and the
    // emitted primitive clamps it to zero.
    let root = scene.layer_node(vec![(
        Position::new(
            Anchor::stretch(Size::Pixel(80), Size::Pixel(50)),
            Anchor::stretch(Size::Pixel(0), Size::Pixel(0)),
        ),
        rect,
    )]);
    scene.set_root(root);
    let lists = scene.visit(Dimension::new(100, 10)).unwrap();
    assert_eq!(lists.flat[0].x, 80);
    assert_eq!(lists.flat[0].width, 0);
    assert_eq!(lists.flat[0].height, 10);
}

#[test]
fn textured_nodes_emit_into_their_own_list() {
    let mut scene = Scene::default();
    let tex = scene.texture_node(7);
    let rect = scene.rect_node(rgba(1.0, 0.0, 0.0, 1.0));
    let root = scene.layer_node(vec![(full(), tex), (full(), rect)]);
    scene.set_root(root);
    let lists = scene.visit(Dimension::new(64, 64)).unwrap();
    assert_eq!(lists.textured.len(), 1);
    assert_eq!(lists.flat.len(), 1);
    assert_eq!(lists.textured[0].texture_id, 7);
    assert_eq!(lists.textured[0].z, 0);
    assert_eq!(lists.flat[0].z, 1);
}

#[test]
fn screen_relative_child_ignores_parent_extent() {
    let mut scene = Scene::default();
    let rect = scene.rect_node(rgba(0.0, 0.0, 0.0, 1.0));
    let inner = scene.layer_node(vec![(
        Position::new(
            Anchor::start(Size::Pixel(0), Size::ScreenWidth(Ratio::new(1, 4))),
            Anchor::start(Size::Pixel(0), Size::ScreenHeight(Ratio::new(1, 2))),
        ),
        rect,
    )]);
    // The inner layer occupies only a small corner, yet its child sizes
    // against the full screen.
    let root = scene.layer_node(vec![(
        Position::new(
            Anchor::start(Size::Pixel(0), Size::Pixel(10)),
            Anchor::start(Size::Pixel(0), Size::Pixel(10)),
        ),
        inner,
    )]);
    scene.set_root(root);
    let lists = scene.visit(Dimension::new(800, 600)).unwrap();
    assert_eq!((lists.flat[0].width, lists.flat[0].height), (200, 300));
}
