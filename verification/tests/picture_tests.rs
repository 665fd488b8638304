use pathtracer::bmp::BmpPicture;
use pathtracer::picture::{Grid, Picture, Row};
use pathtracer::pixel::Pixel;
use pathtracer::png::PngPicture;
use pathtracer::ppm::PpmPicture;
use pathtracer::scalar::Scalar;
use pathtracer::vector::{Color, Vec3};

fn s(x: f64) -> Scalar {
    Scalar::from_bits(x.to_bits())
}

fn c(r: f64, g: f64, b: f64) -> Color {
    Vec3::new(s(r), s(g), s(b))
}

fn rgb(c: &Color) -> (f64, f64, f64) {
    (f64::from_bits(c.x().to_bits()), f64::from_bits(c.y().to_bits()), f64::from_bits(c.z().to_bits()))
}

#[test]
fn row_resize_cuts_and_fills() {
    let mut r = Row::default();
    assert_eq!(r.len(), 0);
    r.resize_width(3);
    assert_eq!(r.len(), 3);
    assert_eq!(rgb(&r.get(2)), (0.0, 0.0, 0.0));
    r.set(1, c(1.0, 2.0, 3.0));
    r.resize_width(5);
    assert_eq!(rgb(&r.get(1)), (1.0, 2.0, 3.0));
    assert_eq!(rgb(&r.get(4)), (0.0, 0.0, 0.0));
    r.resize_width(2);
    assert_eq!(rgb(&r.get(1)), (1.0, 2.0, 3.0));
    r.resize_width(0);
    r.resize_width(2);
    assert_eq!(rgb(&r.get(1)), (0.0, 0.0, 0.0));
}

#[test]
fn new_grid_is_black() {
    let g = Grid::new(4, 3);
    assert_eq!(g.get_width(), 4);
    assert_eq!(g.get_height(), 3);
    for y in 0..3 {
        for x in 0..4 {
            assert_eq!(rgb(&g.get_pixel(x, y)), (0.0, 0.0, 0.0));
        }
    }
}

#[test]
fn grid_set_pixel_changes_one_pixel() {
    let mut g = Grid::new(4, 3);
    g.set_pixel(2, 1, &c(0.5, 1.5, 2.5));
    for y in 0..3 {
        for x in 0..4 {
            let want = if (x, y) == (2, 1) { (0.5, 1.5, 2.5) } else { (0.0, 0.0, 0.0) };
            assert_eq!(rgb(&g.get_pixel(x, y)), want);
        }
    }
}

#[test]
fn grid_resize_keeps_rows_that_stay() {
    let mut g = Grid::new(2, 2);
    g.set_pixel(1, 0, &c(1.0, 1.0, 1.0));
    g.set_pixel(0, 1, &c(2.0, 2.0, 2.0));
    g.resize(3, 4);
    assert_eq!((g.get_width(), g.get_height()), (3, 4));
    assert_eq!(rgb(&g.get_pixel(1, 0)), (1.0, 1.0, 1.0));
    assert_eq!(rgb(&g.get_pixel(0, 1)), (2.0, 2.0, 2.0));
    assert_eq!(rgb(&g.get_pixel(2, 2)), (0.0, 0.0, 0.0));
    assert_eq!(rgb(&g.get_pixel(2, 3)), (0.0, 0.0, 0.0));
    g.resize(3, 1);
    assert_eq!((g.get_width(), g.get_height()), (3, 1));
    assert_eq!(rgb(&g.get_pixel(1, 0)), (1.0, 1.0, 1.0));
    g.resize(1, 2);
    assert_eq!(rgb(&g.get_pixel(1, 0)), (1.0, 1.0, 1.0));
    assert_eq!(rgb(&g.get_pixel(0, 1)), (0.0, 0.0, 0.0));
}

#[test]
fn pictures_hold_their_pixels() {
    let mut png = PngPicture::new(3, 2, 10);
    let mut bmp = BmpPicture::new(3, 2, 20);
    let mut ppm = PpmPicture::new(3, 2, 255);
    assert_eq!(png.get_samples(), 10);
    assert_eq!(bmp.get_samples(), 20);
    assert_eq!(ppm.get_intensity(), 255);
    png.set_pixel(2, 1, &c(1.0, 2.0, 3.0));
    bmp.set_pixel(0, 0, &c(4.0, 5.0, 6.0));
    ppm.set_pixel(1, 1, &c(7.0, 8.0, 9.0));
    assert_eq!(rgb(&png.get_pixel(2, 1)), (1.0, 2.0, 3.0));
    assert_eq!(rgb(&png.get_pixel(0, 0)), (0.0, 0.0, 0.0));
    assert_eq!(rgb(&bmp.get_pixel(0, 0)), (4.0, 5.0, 6.0));
    assert_eq!(rgb(&ppm.get_pixel(1, 1)), (7.0, 8.0, 9.0));
    assert_eq!((png.get_width(), png.get_height()), (3, 2));
    png.resize(5, 4);
    bmp.resize(1, 1);
    ppm.resize(3, 3);
    assert_eq!((png.get_width(), png.get_height()), (5, 4));
    assert_eq!((bmp.get_width(), bmp.get_height()), (1, 1));
    assert_eq!((ppm.get_width(), ppm.get_height()), (3, 3));
    assert_eq!(rgb(&png.get_pixel(2, 1)), (1.0, 2.0, 3.0));
    assert_eq!(rgb(&bmp.get_pixel(0, 0)), (4.0, 5.0, 6.0));
    assert_eq!(rgb(&ppm.get_pixel(2, 2)), (0.0, 0.0, 0.0));
}

fn paint<P: Picture>(p: &mut P) -> (u32, u32) {
    assert!(!p.holds(0, 0));
    p.resize(2, 2);
    assert!(p.holds(1, 1));
    assert!(!p.holds(2, 1));
    p.set_pixel(1, 1, &c(9.0, 8.0, 7.0));
    assert_eq!(rgb(&p.get_pixel(1, 1)), (9.0, 8.0, 7.0));
    assert_eq!(rgb(&p.get_pixel(0, 1)), (0.0, 0.0, 0.0));
    (p.get_width(), p.get_height())
}

#[test]
fn every_picture_can_be_painted_alike() {
    assert_eq!(paint(&mut PngPicture::new(0, 0, 1)), (2, 2));
    assert_eq!(paint(&mut BmpPicture::new(0, 0, 1)), (2, 2));
    assert_eq!(paint(&mut PpmPicture::new(0, 0, 255)), (2, 2));
}

#[test]
fn bitmap_header_bytes() {
    let h = BmpPicture::header(0x0102_0304, 7);
    let want: Vec<u8> = vec![
        0x42, 0x4d, 14, 0, 0, 0, 0, 0, 0, 0, 14, 0, 0, 0, 40, 0, 0, 0, 4, 3, 2, 1, 7, 0, 0, 0, 1, 0, 24, 0, 0, 0, 0, 0, 0,
        0, 0, 0, 1, 0, 0, 0, 1, 0, 0, 0, 0, 0, 0, 0, 0, 0, 0, 0,
    ];
    assert_eq!(h.len(), 54);
    assert_eq!(h, want);
}

#[test]
fn bitmap_row_padding() {
    assert_eq!(BmpPicture::padding(0), 0);
    assert_eq!(BmpPicture::padding(1), 1);
    assert_eq!(BmpPicture::padding(2), 2);
    assert_eq!(BmpPicture::padding(3), 3);
    assert_eq!(BmpPicture::padding(4), 0);
    assert_eq!(BmpPicture::padding(5), 1);
    assert_eq!(BmpPicture::padding(u32::MAX), 3);
}

#[test]
fn bitmap_rows_are_blue_green_red_with_padding() {
    let tones = vec![Pixel::new(1, 2, 3), Pixel::new(4, 5, 6), Pixel::new(7, 8, 9), Pixel::new(10, 11, 12)];
    let (bytes, written) = BmpPicture::encode(2, 2, &tones).unwrap();
    assert_eq!(written, 54 + 12);
    assert_eq!(bytes.len(), 54 + 16);
    assert_eq!(bytes[..54].to_vec(), BmpPicture::header(2, 2));
    assert_eq!(bytes[54..].to_vec(), vec![3, 2, 1, 6, 5, 4, 0, 0, 9, 8, 7, 12, 11, 10, 0, 0]);
}

#[test]
fn bitmap_without_pixels_is_its_header() {
    let (bytes, written) = BmpPicture::encode(0, 0, &Vec::new()).unwrap();
    assert_eq!(written, 54);
    assert_eq!(bytes, BmpPicture::header(0, 0));
    let (bytes, written) = BmpPicture::encode(0, 3, &Vec::new()).unwrap();
    assert_eq!(written, 54);
    assert_eq!(bytes, BmpPicture::header(0, 3));
}

#[test]
fn png_data_runs_from_the_last_row_to_the_first() {
    let tones = vec![
        Pixel::new(1, 2, 3),
        Pixel::new(4, 5, 6),
        Pixel::new(7, 8, 9),
        Pixel::new(10, 11, 12),
        Pixel::new(13, 14, 15),
        Pixel::new(16, 17, 18),
    ];
    let (bytes, written) = PngPicture::encode(2, 3, &tones).unwrap();
    assert_eq!(written, 18);
    assert_eq!(bytes, vec![13, 14, 15, 16, 17, 18, 7, 8, 9, 10, 11, 12, 1, 2, 3, 4, 5, 6]);
    let (bytes, written) = PngPicture::encode(0, 0, &Vec::new()).unwrap();
    assert_eq!(written, 0);
    assert!(bytes.is_empty());
}

#[test]
fn pictures_with_the_wrong_number_of_pixels_are_not_encoded() {
    let tones = vec![Pixel::new(1, 2, 3); 5];
    assert!(BmpPicture::encode(2, 3, &tones).is_none());
    assert!(BmpPicture::encode(3, 2, &tones).is_none());
    assert!(BmpPicture::encode(5, 1, &tones).is_some());
    assert!(BmpPicture::encode(0, 0, &tones).is_none());
    assert!(BmpPicture::encode(u32::MAX, u32::MAX, &tones).is_none());
    assert!(PngPicture::encode(2, 3, &tones).is_none());
    assert!(PngPicture::encode(1, 5, &tones).is_some());
    assert!(PngPicture::encode(0, 7, &tones).is_none());
    assert!(PngPicture::encode(u32::MAX, u32::MAX, &tones).is_none());
}

#[test]
fn ppm_text() {
    let tones = vec![Pixel::new(255, 0, 7), Pixel::new(10, 20, 30)];
    let (bytes, count) = PpmPicture::encode(2, 1, 255, &tones);
    assert_eq!(count, 2);
    assert_eq!(String::from_utf8(bytes).unwrap(), "P3\n2 1\n255\n255 0 7 10 20 30 \n");
}

#[test]
fn ppm_breaks_the_line_after_every_eleventh_pixel() {
    let tones: Vec<Pixel> = (0..23).map(|i| Pixel::new(i, 100 + i, 200)).collect();
    let (bytes, count) = PpmPicture::encode(23, 1, 1000, &tones);
    assert_eq!(count, 23);
    let text = String::from_utf8(bytes).unwrap();
    let lines: Vec<&str> = text.split('\n').collect();
    assert_eq!(lines[0], "P3");
    assert_eq!(lines[1], "23 1");
    assert_eq!(lines[2], "1000");
    assert_eq!(lines[3].split(' ').count(), 33);
    assert!(lines[3].starts_with("0 100 200 1 101 200 "));
    assert!(lines[3].ends_with(" 10 110 200"));
    assert_eq!(lines[4].split(' ').count(), 33);
    assert!(lines[4].starts_with("11 111 200 "));
    assert_eq!(lines[5], "22 122 200 ");
    assert_eq!(lines[6], "");
    assert_eq!(lines.len(), 7);
}

#[test]
fn ppm_without_pixels() {
    let (bytes, count) = PpmPicture::encode(0, 0, 0, &Vec::new());
    assert_eq!(count, 0);
    assert_eq!(String::from_utf8(bytes).unwrap(), "P3\n0 0\n0\n\n");
    let (bytes, _) = PpmPicture::encode(4294967295, 10, 65535, &Vec::new());
    assert_eq!(String::from_utf8(bytes).unwrap(), "P3\n4294967295 10\n65535\n\n");
}
