use guiug::Anchor;
use guiug::Dimension;
use guiug::Position;
use guiug::Ratio;
use guiug::Rect;
use guiug::Size;

fn dims() -> (Dimension, Dimension) {
    (Dimension::new(100, 50), Dimension::new(800, 600))
}

#[test]
fn pixel_resolves_to_itself_regardless_of_extents() {
    let sizes = [
        (Dimension::new(0, 0), Dimension::new(0, 0)),
        (Dimension::new(100, 50), Dimension::new(800, 600)),
        (Dimension::new(-30, -7), Dimension::new(1920, 1080)),
        (Dimension::new(i32::MAX, i32::MIN), Dimension::new(1, 1)),
    ];
    for (parent, screen) in sizes {
        assert_eq!(Size::Pixel(42).resolve(parent, screen), 42);
        assert_eq!(Size::Pixel(-7).resolve(parent, screen), -7);
        assert_eq!(Size::Pixel(0).resolve(parent, screen), 0);
    }
}

#[test]
fn parent_ratios_scale_parent_extent() {
    let (parent, screen) = dims();
    assert_eq!(Size::ParentWidth(Ratio::new(1, 5)).resolve(parent, screen), 20);
    assert_eq!(Size::ParentHeight(Ratio::new(1, 2)).resolve(parent, screen), 25);
    assert_eq!(Size::ParentWidth(Ratio::new(4, 5)).resolve(parent, screen), 80);
}

#[test]
fn screen_ratios_scale_screen_extent() {
    let (parent, screen) = dims();
    assert_eq!(Size::ScreenWidth(Ratio::new(1, 5)).resolve(parent, screen), 160);
    assert_eq!(Size::ScreenHeight(Ratio::new(1, 4)).resolve(parent, screen), 150);
}

#[test]
fn ratio_scaling_truncates_toward_zero() {
    let (parent, screen) = dims();
    // 100 / 3 = 33.33..; truncation keeps 33.
    assert_eq!(Size::ParentWidth(Ratio::new(1, 3)).resolve(parent, screen), 33);
    // -100 / 3 = -33.33..; truncation toward zero keeps -33, not -34.
    assert_eq!(Size::ParentWidth(Ratio::new(-1, 3)).resolve(parent, screen), -33);
}

#[test]
fn degenerate_ratio_resolves_to_zero() {
    let (parent, screen) = dims();
    assert_eq!(Size::ParentWidth(Ratio::new(1, 0)).resolve(parent, screen), 0);
    assert_eq!(Size::ParentWidth(Ratio::new(3, -2)).resolve(parent, screen), 0);
}

#[test]
fn ratio_scaling_saturates_into_pixel_range() {
    let (_, screen) = dims();
    let huge = Dimension::new(i32::MAX, i32::MAX);
    assert_eq!(
        Size::ParentWidth(Ratio::new(i32::MAX, 1)).resolve(huge, screen),
        i32::MAX
    );
    assert_eq!(
        Size::ParentWidth(Ratio::new(i32::MIN, 1)).resolve(huge, screen),
        i32::MIN
    );
}

#[test]
fn start_anchor_with_zero_offset_keeps_parent_origin() {
    let (parent, screen) = dims();
    for size in [Size::Pixel(30), Size::ParentWidth(Ratio::new(1, 2)), Size::Pixel(-5)] {
        let (origin, _) = Anchor::start(Size::Pixel(0), size).apply(17, 100, parent, screen);
        assert_eq!(origin, 17);
    }
}

#[test]
fn start_anchor_offsets_toward_end() {
    let (parent, screen) = dims();
    let (origin, length) = Anchor::start(Size::Pixel(10), Size::Pixel(30)).apply(5, 100, parent, screen);
    assert_eq!((origin, length), (15, 30));
}

#[test]
fn center_anchor_centers_on_parent() {
    let (parent, screen) = dims();
    let (origin, length) = Anchor::center(Size::Pixel(0), Size::Pixel(30)).apply(0, 100, parent, screen);
    assert_eq!((origin, length), (35, 30));
    let (shifted, _) = Anchor::center(Size::Pixel(-5), Size::Pixel(30)).apply(0, 100, parent, screen);
    assert_eq!(shifted, 30);
}

#[test]
fn end_anchor_hangs_from_parent_end() {
    let (parent, screen) = dims();
    let (origin, length) = Anchor::end(Size::Pixel(10), Size::Pixel(30)).apply(5, 100, parent, screen);
    assert_eq!((origin, length), (65, 30));
}

#[test]
fn stretch_with_zero_margins_is_identity_on_axis() {
    let (parent, screen) = dims();
    for (pos, len) in [(0, 100), (-20, 7), (1000, 0), (5, -3)] {
        let (origin, length) = Anchor::stretch(Size::Pixel(0), Size::Pixel(0))
            .apply(pos, len, parent, screen);
        assert_eq!((origin, length), (pos, len));
    }
}

#[test]
fn stretch_margins_shrink_both_sides() {
    let (parent, screen) = dims();
    let (origin, length) = Anchor::stretch(Size::Pixel(10), Size::Pixel(20)).apply(5, 100, parent, screen);
    assert_eq!((origin, length), (15, 70));
}

#[test]
fn overfull_stretch_keeps_negative_length() {
    let (parent, screen) = dims();
    // Margins exceed the parent: the length goes negative and stays so at
    // this stage; it is clamped only when a primitive is emitted.
    let (origin, length) = Anchor::stretch(Size::Pixel(80), Size::Pixel(50)).apply(0, 100, parent, screen);
    assert_eq!((origin, length), (80, -30));
}

#[test]
fn full_stretch_position_reproduces_parent_rect() {
    let screen = Dimension::new(800, 600);
    let full = Position::new(
        Anchor::stretch(Size::Pixel(0), Size::Pixel(0)),
        Anchor::stretch(Size::Pixel(0), Size::Pixel(0)),
    );
    let parent = Rect::new(12, -7, 300, 44);
    assert_eq!(full.apply(parent, screen), parent);
}

#[test]
fn position_resolves_axes_independently() {
    let screen = Dimension::new(800, 600);
    let parent = Rect::new(0, 0, 100, 50);
    let position = Position::new(
        Anchor::start(Size::Pixel(10), Size::Pixel(50)),
        Anchor::end(Size::Pixel(5), Size::Pixel(20)),
    );
    assert_eq!(position.apply(parent, screen), Rect::new(10, 25, 50, 20));
}

#[test]
fn rect_dimension_reads_extent() {
    let rect = Rect::new(3, 4, 10, 20);
    let dim = rect.dimension();
    assert_eq!((dim.width, dim.height), (10, 20));
}
