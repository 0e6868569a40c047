use imageslapper::color::Rgba;
use imageslapper::compositor::{BlendMode, Canvas, Compositor};
use imageslapper::layer::{ClipMask, ConfigError, Layer, LayerState, PixelProvider, Scale, Transform};
use imageslapper::rectangle::Rectangle;

fn fill() -> Rgba {
    Rgba::new(200, 100, 50, 255)
}

fn solid_layer(x: u32, y: u32) -> Layer<Rectangle> {
    Rectangle::from_xywh(x, y, 10, 10).filled(fill()).to_layer()
}

fn state(x: u32, y: u32, hash: u64) -> LayerState {
    LayerState {
        x,
        y,
        width: 10,
        height: 10,
        color: fill(),
        opacity: 255,
        z_index: 0,
        blend_mode: BlendMode::Normal,
        hash,
    }
}

#[test]
fn solid_layer_without_history_emits_every_pixel() {
    let layer = solid_layer(0, 0);
    let delta = layer.collect_changes(None);
    assert_eq!(delta.changes.len(), 100);
    for d in &delta.changes {
        assert_eq!(d.color, Rgba::new(200, 100, 50, 255));
    }
    let regions = delta.dirty_regions.expect("one dirty region");
    assert_eq!(regions.len(), 1);
    assert_eq!((regions[0].x1, regions[0].y1, regions[0].width, regions[0].height), (0, 0, 10, 10));
    assert_eq!((regions[0].x2, regions[0].y2), (10, 10));
}

#[test]
fn deltas_come_in_row_major_order() {
    let delta = solid_layer(0, 0).collect_changes(None);
    let coords: Vec<(u32, u32)> = delta.changes.iter().map(|d| (d.x, d.y)).collect();
    assert_eq!(coords[0], (0, 0));
    assert_eq!(coords[1], (1, 0));
    assert_eq!(coords[10], (0, 1));
    assert_eq!(coords[99], (9, 9));
}

#[test]
fn boundary_pixels_of_a_ten_by_ten_layer() {
    let delta = solid_layer(0, 0).collect_changes(None);
    assert!(delta.changes.iter().any(|d| d.x == 9 && d.y == 9));
    assert!(!delta.changes.iter().any(|d| d.x == 10 && d.y == 10));
    assert!(!delta.changes.iter().any(|d| d.x >= 10 || d.y >= 10));
}

#[test]
fn hidden_layer_emits_nothing() {
    let mut layer = solid_layer(0, 0);
    layer.visible = false;
    assert!(layer.collect_changes(None).is_empty());
    let moved = state(3, 3, 42);
    let delta = layer.collect_changes(Some(&moved));
    assert!(delta.is_empty());
    assert!(delta.dirty_regions.is_none());
}

#[test]
fn matching_fingerprint_emits_nothing() {
    let mut layer = solid_layer(0, 0);
    layer.last_render_hash = 7;
    let far_away = state(50, 50, 7);
    let delta = layer.collect_changes(Some(&far_away));
    assert!(delta.is_empty());
    assert!(delta.dirty_regions.is_none());
}

#[test]
fn round_trip_through_a_canvas_and_snapshot_is_empty() {
    let layer = solid_layer(0, 0);
    let delta = layer.collect_changes(None);
    let mut canvas = Canvas::new(10, 10).expect("small canvas");
    Compositor::apply(&mut canvas, &delta, layer.blend_mode).expect("sizes match");
    let snapshot = layer.snapshot();
    assert_eq!((snapshot.x, snapshot.y, snapshot.width, snapshot.height), (0, 0, 10, 10));
    for y in 0..10 {
        for x in 0..10 {
            assert_eq!(canvas.get_pixel(x, y), Some(snapshot.pixel_at(x, y)));
        }
    }
    assert!(layer.collect_changes(Some(&snapshot)).is_empty());
    // The pixels agree too, so a snapshot with another fingerprint finds nothing either.
    let mut other = snapshot;
    other.hash = 99;
    assert!(layer.collect_changes(Some(&other)).is_empty());
}

#[test]
fn moved_layer_revisits_the_union_of_both_footprints() {
    let layer = solid_layer(5, 5);
    let prev = state(0, 0, 1);
    let delta = layer.collect_changes(Some(&prev));
    let regions = delta.dirty_regions.as_ref().expect("a dirty region");
    assert_eq!(regions.len(), 1);
    assert_eq!((regions[0].x1, regions[0].y1, regions[0].width, regions[0].height), (0, 0, 15, 15));
    let at = |x: u32, y: u32| delta.changes.iter().find(|d| d.x == x && d.y == y).map(|d| d.color);
    assert_eq!(at(0, 0), Some(Rgba::transparent()));
    assert_eq!(at(4, 9), Some(Rgba::transparent()));
    assert_eq!(at(12, 12), Some(fill()));
    assert_eq!(at(14, 5), Some(fill()));
    // Covered before and after with the same color: unchanged.
    assert_eq!(at(7, 7), None);
    // 100 vacated pixels minus 25 still covered, and 75 newly covered.
    assert_eq!(delta.changes.len(), 150);
}

#[test]
fn opacity_scales_alpha_down() {
    let mut layer = solid_layer(0, 0);
    layer.opacity = 128;
    assert_eq!(layer.compute_pixel_at(3, 3), Rgba::new(200, 100, 50, 128));
    layer.opacity = 0;
    assert_eq!(layer.compute_pixel_at(3, 3).a, 0);
}

#[test]
fn scaled_layer_maps_back_to_content_pixels() {
    let rect = Rectangle::from_xywh(0, 0, 4, 4).filled(fill());
    let transform = Transform { translate_x: 2, translate_y: 0, scale_x: Scale::whole(2), scale_y: Scale::whole(3), rotation: 0 };
    let layer = Layer::new(rect, (1, 1), transform).expect("valid transform");
    // Footprint starts at (3, 1) and spans 8 x 12 pixels.
    assert_eq!(layer.compute_pixel_at(2, 5), Rgba::transparent());
    assert_eq!(layer.compute_pixel_at(3, 1), fill());
    assert_eq!(layer.compute_pixel_at(10, 12), fill());
    assert_eq!(layer.compute_pixel_at(11, 12), Rgba::transparent());
    assert_eq!(layer.compute_pixel_at(10, 13), Rgba::transparent());
    let bounds = layer.get_affected_bounds(None);
    assert_eq!((bounds.x1, bounds.y1, bounds.width, bounds.height), (3, 1, 8, 12));
    assert_eq!(layer.collect_changes(None).changes.len(), 96);
}

#[test]
fn negative_position_drops_off_canvas_pixels() {
    let rect = Rectangle::from_xywh(0, 0, 10, 10).filled(fill());
    let layer = Layer::new(rect, (-4, -6), Transform::identity()).expect("valid");
    let bounds = layer.get_affected_bounds(None);
    assert_eq!((bounds.x1, bounds.y1, bounds.width, bounds.height), (0, 0, 6, 4));
    let delta = layer.collect_changes(None);
    assert_eq!(delta.changes.len(), 24);
}

#[test]
fn invalid_transforms_are_refused() {
    let rect = Rectangle::from_xywh(0, 0, 2, 2);
    let zero_x = Transform { scale_x: Scale::whole(0), ..Transform::identity() };
    let zero_y = Transform { scale_y: Scale { num: 1, den: 0 }, ..Transform::identity() };
    let rotated = Transform { rotation: 90, ..Transform::identity() };
    assert_eq!(zero_x.validate(), Err(ConfigError::ZeroScaleX));
    assert_eq!(zero_y.validate(), Err(ConfigError::ZeroScaleY));
    assert_eq!(rotated.validate(), Err(ConfigError::UnsupportedRotation));
    assert_eq!(Transform::identity().validate(), Ok(()));
    assert!(matches!(Layer::new(rect, (0, 0), rotated), Err(ConfigError::UnsupportedRotation)));
    assert!(matches!(Layer::new(rect, (0, 0), zero_x), Err(ConfigError::ZeroScaleX)));
}

#[test]
fn identity_transform_values() {
    let t = Transform::identity();
    assert_eq!((t.translate_x, t.translate_y, t.rotation), (0, 0, 0));
    assert_eq!(t.scale_x, Scale { num: 1, den: 1 });
    assert_eq!(t.scale_y, Scale { num: 1, den: 1 });
}

#[test]
fn zero_area_content_is_a_no_op() {
    let layer = Rectangle::from_xywh(3, 3, 0, 5).filled(fill()).to_layer();
    assert!(layer.collect_changes(None).is_empty());
    assert!(layer.collect_changes(Some(&state(3, 3, 5))).is_empty());
}

#[test]
fn clip_mask_lookups() {
    let mask = ClipMask { x: 2, y: 3, width: 2, height: 2, mask_data: vec![0, 10, 20] };
    assert!(mask.contains(2, 3));
    assert!(mask.contains(3, 4));
    assert!(!mask.contains(4, 3));
    assert!(!mask.contains(1, 3));
    assert_eq!(mask.value_at(2, 3), Some(0));
    assert_eq!(mask.value_at(3, 3), Some(10));
    assert_eq!(mask.value_at(2, 4), Some(20));
    // Inside the rectangle but past the end of the data.
    assert_eq!(mask.value_at(3, 4), None);
    assert_eq!(mask.value_at(9, 9), None);
}

#[test]
fn clip_mask_forces_erasure_of_masked_pixels() {
    let mut layer = solid_layer(0, 0);
    let mut data = vec![255u8; 100];
    data[0] = 0;
    layer.clip_mask = Some(ClipMask { x: 0, y: 0, width: 10, height: 10, mask_data: data });
    let prev = state(0, 0, 1);
    let delta = layer.collect_changes(Some(&prev));
    assert_eq!(delta.changes.len(), 1);
    assert_eq!((delta.changes[0].x, delta.changes[0].y), (0, 0));
    assert_eq!(delta.changes[0].color, Rgba::transparent());
}

#[test]
fn layer_state_pixel_lookup() {
    let s = state(2, 2, 0);
    assert_eq!(s.pixel_at(2, 2), fill());
    assert_eq!(s.pixel_at(11, 11), fill());
    assert_eq!(s.pixel_at(12, 11), Rgba::transparent());
    assert_eq!(s.pixel_at(1, 5), Rgba::transparent());
}

#[test]
fn unchanged_since_compares_fingerprints() {
    let mut layer = solid_layer(0, 0);
    layer.last_render_hash = 3;
    assert!(layer.unchanged_since(&state(0, 0, 3)));
    assert!(!layer.unchanged_since(&state(0, 0, 4)));
}

#[test]
fn rectangle_as_pixel_source() {
    let plain = Rectangle::new(0, 0, 20, 10);
    assert_eq!((plain.width(), plain.height()), (20, 10));
    assert_eq!(plain.pixel_at(5, 5), Rgba::new(0, 0, 0, 255));
    let mut bordered = Rectangle::from_xywh(0, 0, 30, 30);
    bordered.filled = false;
    let grey = Rgba::new(100, 100, 100, 100);
    assert_eq!(bordered.pixel_at(0, 15), grey);
    assert_eq!(bordered.pixel_at(9, 15), grey);
    assert_eq!(bordered.pixel_at(10, 15), Rgba::transparent());
    assert_eq!(bordered.pixel_at(15, 20), grey);
    assert_eq!(bordered.pixel_at(15, 19), Rgba::transparent());
    bordered.border = None;
    assert_eq!(bordered.pixel_at(0, 0), Rgba::transparent());
}

#[test]
fn rectangle_constructors() {
    let r = Rectangle::new(2, 3, 12, 8);
    assert_eq!((r.width, r.height), (10, 5));
    assert!(r.filled);
    let b = r.border.expect("default border");
    assert_eq!(b.thickness, 10);
    assert_eq!(b.color, Rgba::new(100, 100, 100, 100));
    let s = Rectangle::from_xywh(2, 3, 10, 5);
    assert_eq!((s.x2, s.y2), (12, 8));
    let red = Rgba::new(255, 0, 0, 255);
    let f = s.filled(red);
    assert_eq!(f.fill_color, Some(red));
    assert_eq!(f.pixel_at(0, 0), red);
    let l = f.to_layer();
    assert_eq!(l.position, (2, 3));
    assert_eq!(l.opacity, 255);
    assert!(l.visible);
}

#[test]
fn canvas_raster_as_layer_content() {
    let mut raster = Canvas::new(2, 2).expect("small canvas");
    raster.pixels[0..4].copy_from_slice(&[9, 8, 7, 255]);
    raster.pixels[4..8].copy_from_slice(&[1, 2, 3, 200]);
    assert_eq!((raster.width(), raster.height()), (2, 2));
    assert_eq!(raster.pixel_at(1, 0), Rgba::new(1, 2, 3, 200));
    let transform = Transform { scale_x: Scale::whole(2), scale_y: Scale::whole(2), ..Transform::identity() };
    let mut layer = Layer::new(raster, (3, 4), transform).expect("valid");
    layer.opacity = 51;
    let delta = layer.collect_changes(None);
    assert_eq!(delta.changes.len(), 16);
    let at = |x: u32, y: u32| delta.changes.iter().find(|d| d.x == x && d.y == y).map(|d| d.color);
    assert_eq!(at(3, 4), Some(Rgba::new(9, 8, 7, 51)));
    assert_eq!(at(4, 5), Some(Rgba::new(9, 8, 7, 51)));
    assert_eq!(at(5, 4), Some(Rgba::new(1, 2, 3, 40)));
    assert_eq!(at(6, 7), Some(Rgba::transparent()));
    // A short buffer reads as transparent rather than failing.
    let short = Canvas { width: 2, height: 2, pixels: vec![5; 4] };
    assert_eq!(short.pixel_at(0, 0), Rgba::new(5, 5, 5, 5));
    assert_eq!(short.pixel_at(1, 1), Rgba::transparent());
}

#[test]
fn fractional_scales_round_the_footprint_up() {
    let rect = Rectangle::from_xywh(0, 0, 3, 4).filled(fill());
    // Three columns at 3/2 cover 4.5 pixels, so five; four rows at 1/2 cover two.
    let transform = Transform {
        scale_x: Scale { num: 3, den: 2 },
        scale_y: Scale { num: 1, den: 2 },
        ..Transform::identity()
    };
    let layer = Layer::new(rect, (0, 0), transform).expect("valid");
    let bounds = layer.get_affected_bounds(None);
    assert_eq!((bounds.x1, bounds.y1, bounds.width, bounds.height), (0, 0, 5, 2));
    assert_eq!(layer.compute_pixel_at(4, 1), fill());
    assert_eq!(layer.compute_pixel_at(5, 0), Rgba::transparent());
    assert_eq!(layer.compute_pixel_at(0, 2), Rgba::transparent());
    assert_eq!(layer.collect_changes(None).changes.len(), 10);
}
