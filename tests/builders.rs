use imageslapper::batch::{ImageBatchBuilder, ImagePipeline};
use imageslapper::builders::ImageBuilder;
use imageslapper::color::Rgba;
use imageslapper::compositor::{Canvas, CompositeError};
use imageslapper::rectangle::Rectangle;
use imageslapper::rendering::{Drawable, ImageWrapper};
use imageslapper::text::TextAlignment;

#[test]
fn batch_pairs_each_image_with_itself_in_order() {
    let images = vec!["a.png".to_string(), "b.png".to_string(), "c.png".to_string()];
    let builder = ImageBatchBuilder::new(images, 2);
    assert_eq!(builder.batch_size, 2);
    let pairs = builder.build();
    assert_eq!(
        pairs,
        vec![
            ("a.png".to_string(), "a.png".to_string()),
            ("b.png".to_string(), "b.png".to_string()),
            ("c.png".to_string(), "c.png".to_string()),
        ]
    );
    assert!(ImageBatchBuilder::new(vec![], 3).build().is_empty());
}

#[test]
fn pipeline_defaults_and_pairs() {
    let p = ImagePipeline::new(None, None);
    assert_eq!(p.cache_dir, "./.cache");
    assert_eq!(p.output_dir, "./out");
    let q = ImagePipeline::new(Some("c".to_string()), Some("o".to_string()));
    assert_eq!(q.build(), vec![("c".to_string(), "c".to_string()), ("o".to_string(), "o".to_string())]);
}

#[test]
fn builder_draws_rectangles() {
    let mut b = ImageBuilder::new(20, 10).expect("small canvas");
    let blue = Rgba::new(0, 0, 255, 255);
    b.add_rectangle(Rectangle::from_xywh(2, 3, 4, 5).filled(blue)).expect("sizes match");
    let img = b.get_image();
    assert_eq!((img.width, img.height), (20, 10));
    assert_eq!(img.get_pixel(2, 3), Some(blue));
    assert_eq!(img.get_pixel(5, 7), Some(blue));
    assert_eq!(img.get_pixel(6, 7), Some(Rgba::transparent()));
    assert_eq!(img.get_pixel(1, 3), Some(Rgba::transparent()));
}

#[test]
fn builder_over_existing_canvas_and_default() {
    let bad = Canvas { width: 2, height: 2, pixels: vec![] };
    let mut b = ImageBuilder::from_image(bad);
    let r = b.add_rectangle(Rectangle::new(0, 0, 1, 1));
    assert_eq!(r, Err(CompositeError::BufferSizeMismatch));
    let d = ImageBuilder::default();
    assert_eq!((d.get_image().width, d.get_image().height), (1000, 1000));
}

#[test]
fn wrapper_draws_with_the_drawable() {
    let mut w = ImageWrapper::new(Canvas::new(4, 4).expect("small canvas"));
    let rect = Rectangle::new(1, 1, 3, 3);
    w.draw(&rect).expect("sizes match");
    assert_eq!(w.get_image().get_pixel(1, 1), Some(Rgba::new(0, 0, 0, 255)));
    assert_eq!(w.get_image().get_pixel(3, 3), Some(Rgba::transparent()));
    let mut c = Canvas::new(4, 4).expect("small canvas");
    rect.draw(&mut c).expect("sizes match");
    assert_eq!(&c.pixels, &w.get_image().pixels);
}

#[test]
fn text_alignment_compares() {
    assert_eq!(TextAlignment::Left, TextAlignment::Left);
    assert_ne!(TextAlignment::Center, TextAlignment::Justify);
    assert_ne!(TextAlignment::Right, TextAlignment::Left);
}
