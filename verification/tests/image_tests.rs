use color_service::color::Color;
use color_service::image::Image;

#[test]
fn solid_png_decodes_to_the_color() {
    let color = Color::new(100, 50, 25);
    let width: u32 = 5;
    let height: u32 = 3;
    let png = Image::create_image(width, height, &color);

    assert_eq!(&png[0..8], &[0x89u8, b'P', b'N', b'G', 0x0d, 0x0a, 0x1a, 0x0a]);

    let decoded = image::load_from_memory(&png).unwrap().to_rgb8();
    assert_eq!(width, decoded.width());
    assert_eq!(height, decoded.height());
    for p in decoded.pixels() {
        assert_eq!([color.r, color.g, color.b], p.0);
    }
}

#[test]
fn one_pixel_image_round_trips() {
    for (r, g, b) in [(0u8, 0u8, 0u8), (255, 255, 255), (1, 2, 3)] {
        let color = Color::new(r, g, b);
        let png = Image::create_image(1, 1, &color);
        let decoded = image::load_from_memory(&png).unwrap().to_rgb8();
        assert_eq!([r, g, b], decoded.get_pixel(0, 0).0);
    }
}
