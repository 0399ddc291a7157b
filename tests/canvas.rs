use ray_tracer::canvas::to_png::{PngError, ToPNG};
use ray_tracer::canvas::to_ppm::ToPPM;
use ray_tracer::canvas::to_rgba32::ToRGBA32;
use ray_tracer::canvas::vcanvas::{plot_position, Rgb, Sized, VCanvas};

fn black() -> Rgb {
    Rgb::new(0, 0, 0)
}

fn red() -> Rgb {
    Rgb::new(255, 0, 0)
}

#[test]
fn canvas_creating_a_canvas() {
    let cnv = VCanvas::new(10, 20, black());

    assert_eq!(cnv.width, 10);
    assert_eq!(cnv.height, 20);

    for x in 0..cnv.width - 1 {
        for y in 0..cnv.height - 1 {
            assert_eq!(black(), cnv.pixel_at(x, y))
        }
    }
}

#[test]
fn canvas_writing_pixels_to_a_canvas() {
    let mut cnv = VCanvas::new(10, 20, black());

    let c = red();
    cnv.write_pixel(2, 3, c);

    assert_eq!(red(), cnv.pixel_at(2, 3))
}

#[test]
fn canvas_constructing_the_ppm_header() {
    let cnv = VCanvas::new(5, 3, black());

    let result = cnv.create_ppm_header(cnv.width, cnv.height, 255);
    let expected_result = String::from("P3\n5 3\n255\n").into_bytes();

    assert_eq!(result, expected_result)
}

#[test]
fn canvas_constructing_the_pixel_data() {
    let mut cnv = VCanvas::new(2, 3, black());
    let c1 = Rgb::new(255, 0, 0);
    let c2 = Rgb::new(0, 128, 0);
    let c3 = Rgb::new(0, 0, 255);

    cnv.write_pixel(0, 0, c1);
    cnv.write_pixel(0, 1, c2);
    cnv.write_pixel(0, 2, c3);

    let result = cnv.to_ppm();
    let expected_result =
        String::from("P3\n2 3\n255\n255 0 0 0 0 0\n0 128 0 0 0 0\n0 0 255 0 0 0\n").into_bytes();

    assert_eq!(result, expected_result)
}

#[test]
fn vcanvas_creating_a_canvas() {
    let cnv: VCanvas<Rgb> = VCanvas::new(10, 20, black());

    assert_eq!(cnv.width(), 10);
    assert_eq!(cnv.height(), 20);
    assert_eq!(cnv.get_pixels().len(), 200);
    assert!(cnv.get_pixels().iter().all(|p| *p == black()));
}

#[test]
fn vcanvas_writing_pixels_to_a_canvas() {
    let mut cnv: VCanvas<Rgb> = VCanvas::new(10, 20, black());

    cnv.write_pixel(2, 3, red());

    assert_eq!(red(), cnv.pixel_at(2, 3));
    assert_eq!(cnv.get_pixels()[3 * 10 + 2], red());
    assert_eq!(black(), cnv.pixel_at(3, 2));
}

#[test]
fn vcanvas_constructing_the_ppm_header() {
    let cnv: VCanvas<Rgb> = VCanvas::new(5, 3, black());

    let result = cnv.create_ppm_header(cnv.width(), cnv.height(), 255);
    let expected_result = String::from("P3\n5 3\n255\n").into_bytes();

    assert_eq!(result, expected_result)
}

#[test]
fn vcanvas_constructing_the_pixel_data() {
    let mut cnv = VCanvas::new(2, 3, black());
    cnv.write_pixel(0, 0, Rgb::new(255, 0, 0));
    cnv.write_pixel(0, 1, Rgb::new(0, 128, 0));
    cnv.write_pixel(0, 2, Rgb::new(0, 0, 255));

    let result = cnv.to_ppm();
    let expected_result =
        String::from("P3\n2 3\n255\n255 0 0 0 0 0\n0 128 0 0 0 0\n0 0 255 0 0 0\n").into_bytes();

    assert_eq!(result, expected_result)
}

#[test]
fn ppm_of_a_single_pixel_has_no_trailing_space() {
    let cnv = VCanvas::new(1, 1, Rgb::new(7, 89, 100));
    assert_eq!(cnv.to_ppm(), String::from("P3\n1 1\n255\n7 89 100\n").into_bytes());
}

#[test]
fn ppm_header_of_a_large_canvas() {
    let cnv = VCanvas::new(0, 0, black());
    let result = cnv.create_ppm_header(1920, 10080, 65535);
    assert_eq!(result, String::from("P3\n1920 10080\n65535\n").into_bytes());
    assert_eq!(cnv.to_ppm(), String::from("P3\n0 0\n255\n").into_bytes());
}

#[test]
fn rgba_bytes_add_an_opaque_alpha_to_each_pixel() {
    let mut cnv = VCanvas::new(2, 1, black());
    cnv.write_pixel(1, 0, Rgb::new(10, 20, 30));
    assert_eq!(cnv.to_rgba32(), vec![0, 0, 0, 255, 10, 20, 30, 255]);
}

#[test]
fn png_of_a_canvas_is_a_png_file() {
    let mut cnv = VCanvas::new(3, 2, black());
    cnv.write_pixel(1, 1, red());
    let bytes = cnv.to_png().unwrap();
    assert_eq!(&bytes[0..8], &[137, 80, 78, 71, 13, 10, 26, 10]);
    // the IHDR chunk carries the width and the height
    assert_eq!(&bytes[12..16], b"IHDR");
    assert_eq!(&bytes[16..20], &[0, 0, 0, 3]);
    assert_eq!(&bytes[20..24], &[0, 0, 0, 2]);
    // 8 bits per channel, RGBA
    assert_eq!(bytes[24], 8);
    assert_eq!(bytes[25], 6);
    assert_eq!(&bytes[bytes.len() - 8..bytes.len() - 4], b"IEND");
}

#[test]
fn png_of_an_empty_canvas_is_refused() {
    let cnv = VCanvas::new(0, 4, black());
    assert_eq!(cnv.to_png(), Err(PngError::EmptyImage));
    let cnv = VCanvas::new(4, 0, black());
    assert_eq!(cnv.to_png(), Err(PngError::EmptyImage));
}

#[test]
fn plot_position_flips_the_vertical_axis() {
    assert_eq!(plot_position(10, 5, 2, 5), Some((2, 0)));
    assert_eq!(plot_position(10, 5, 9, 1), Some((9, 4)));
    assert_eq!(plot_position(10, 5, 10, 3), None);
    assert_eq!(plot_position(10, 5, 3, 0), None);
    assert_eq!(plot_position(10, 5, 3, 6), None);
}

#[test]
fn png_of_a_canvas_with_a_broken_size_is_refused() {
    let mut cnv = VCanvas::new(2, 2, black());
    cnv.width = 4_000_000_000;
    cnv.height = 4_000_000_000;
    assert_eq!(cnv.to_png(), Err(PngError::Malformed));
    let mut cnv = VCanvas::new(2, 2, black());
    cnv.width = 3;
    assert_eq!(cnv.to_png(), Err(PngError::Malformed));
    assert_eq!(cnv.to_ppm(), String::from("P3\n3 2\n255\n").into_bytes());
}

#[test]
fn png_of_a_canvas_wider_than_32_bits_is_refused() {
    let mut cnv = VCanvas::new(1, 1, black());
    cnv.width = 5_000_000_000;
    assert_eq!(cnv.to_png(), Err(PngError::TooLarge));
}
