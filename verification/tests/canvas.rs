use rustytracer::arithmetic::Arithmetic;
use rustytracer::canvas::{scale_color, Canvas};
use rustytracer::color::{self, Color};
use rustytracer::error::Error;
use rustytracer::ppm::{clamp_sample, write_data, write_header, ScaledColor};
use rustytracer::scalar::Scalar;

fn scalar(v: f64) -> Scalar {
    Scalar::from_bits(v.to_bits())
}

fn value(s: Scalar) -> f64 {
    f64::from_bits(s.to_bits())
}

struct Float;

impl Arithmetic for Float {
    fn plus(&self, a: Scalar, b: Scalar) -> Scalar {
        scalar(value(a) + value(b))
    }

    fn minus(&self, a: Scalar, b: Scalar) -> Scalar {
        scalar(value(a) - value(b))
    }

    fn times(&self, a: Scalar, b: Scalar) -> Scalar {
        scalar(value(a) * value(b))
    }

    fn over(&self, a: Scalar, b: Scalar) -> Scalar {
        scalar(value(a) / value(b))
    }

    fn root(&self, a: Scalar) -> Scalar {
        scalar(value(a).sqrt())
    }

    fn sine(&self, a: Scalar) -> Scalar {
        scalar(value(a).sin())
    }

    fn cosine(&self, a: Scalar) -> Scalar {
        scalar(value(a).cos())
    }

    fn tangent(&self, a: Scalar) -> Scalar {
        scalar(value(a).tan())
    }

    fn power(&self, a: Scalar, b: Scalar) -> Scalar {
        scalar(value(a).powf(value(b)))
    }

    fn count(&self, n: usize) -> Scalar {
        scalar(n as f64)
    }

    fn nearest(&self, a: Scalar) -> i32 {
        value(a).round() as i32
    }
}

fn rgb(r: f64, g: f64, b: f64) -> Color {
    Color::new(scalar(r), scalar(g), scalar(b))
}

fn same_color(a: &Color, b: &Color) -> bool {
    a.nearly(b, &Float)
}

#[test]
fn creating_canvas() {
    let canvas = Canvas::new(10, 20);
    assert_eq!(canvas.width(), 10);
    assert_eq!(canvas.height(), 20);

    // All pixels are black
    assert!(same_color(canvas.get(0, 0).unwrap(), &color::black()));
    assert!(same_color(canvas.get(9, 19).unwrap(), &color::black()));
}

#[test]
fn writing_pixel() {
    let mut canvas = Canvas::new(10, 20);
    canvas.set(1, 2, &color::red()).unwrap();
    assert!(same_color(canvas.get(1, 2).unwrap(), &color::red()));
    assert!(same_color(canvas.pixel(1, 2), &color::red()));
}

#[test]
fn reaching_outside_a_canvas() {
    let mut canvas = Canvas::new(10, 20);
    assert_eq!(canvas.get(10, 0).err(), Some(Error::IndexOutOfRange));
    assert_eq!(canvas.get(0, 20).err(), Some(Error::IndexOutOfRange));
    assert_eq!(canvas.get(19, 9).err(), Some(Error::IndexOutOfRange));
    assert_eq!(canvas.set(10, 0, &color::red()), Err(Error::IndexOutOfRange));
    assert_eq!(canvas.set(0, 20, &color::red()), Err(Error::IndexOutOfRange));
    assert_eq!(canvas.set(9, 19, &color::red()), Ok(()));
    for y in 0..20 {
        for x in 0..10 {
            let want = if (x, y) == (9, 19) { color::red() } else { color::black() };
            assert_eq!(canvas.get(x, y).unwrap().red().to_bits(), want.red().to_bits());
        }
    }
}

#[test]
fn writing_pixel_leaves_the_others() {
    let mut canvas = Canvas::new(3, 2);
    canvas.set(2, 1, &color::green()).unwrap();
    for y in 0..2 {
        for x in 0..3 {
            let want = if (x, y) == (2, 1) { color::green() } else { color::black() };
            let got = canvas.get(x, y).unwrap();
            assert_eq!(got.red().to_bits(), want.red().to_bits());
            assert_eq!(got.green().to_bits(), want.green().to_bits());
            assert_eq!(got.blue().to_bits(), want.blue().to_bits());
        }
    }
}

#[test]
fn filling_canvas() {
    let mut canvas = Canvas::new(4, 3);
    canvas.fill(&rgb(1.0, 0.8, 0.6));
    for y in 0..3 {
        for x in 0..4 {
            assert!(same_color(canvas.get(x, y).unwrap(), &rgb(1.0, 0.8, 0.6)));
        }
    }
    assert_eq!(canvas.width(), 4);
    assert_eq!(canvas.height(), 3);
}

#[test]
fn canvas_from_its_pixels() {
    let pixels = vec![color::red(), color::green(), color::blue(), color::white()];
    let canvas = Canvas::from_pixels(2, 2, pixels);
    assert!(same_color(canvas.get(0, 0).unwrap(), &color::red()));
    assert!(same_color(canvas.get(1, 0).unwrap(), &color::green()));
    assert!(same_color(canvas.get(0, 1).unwrap(), &color::blue()));
    assert!(same_color(canvas.get(1, 1).unwrap(), &color::white()));
}

#[test]
fn constructing_ppm_header_u8() {
    let canvas = Canvas::new(5, 3);
    let want = "P3\n5 3\n255\n";
    let got = canvas.write_ppm_header();
    assert_eq!(String::from_utf8(got).unwrap(), want);
}

#[test]
fn constructing_ppm_header_of_large_canvas() {
    let canvas = Canvas::new(1920, 1080);
    let got = canvas.write_ppm_header();
    assert_eq!(String::from_utf8(got).unwrap(), "P3\n1920 1080\n255\n");
    let huge = write_header(usize::MAX, 0);
    assert_eq!(String::from_utf8(huge).unwrap(), format!("P3\n{} 0\n255\n", usize::MAX));
}

#[test]
fn constructing_ppm_data() {
    let mut canvas = Canvas::new(5, 3);
    canvas.set(0, 0, &rgb(1.5, 0.0, 0.0)).unwrap();
    canvas.set(2, 1, &rgb(0.0, 0.5, 0.0)).unwrap();
    canvas.set(4, 2, &rgb(-0.5, 0.0, 1.0)).unwrap();
    let want = "255 0 0 0 0 0 0 0 0 0 0 0 0 0 0\n\
                0 0 0 0 0 0 0 128 0 0 0 0 0 0 0\n\
                0 0 0 0 0 0 0 0 0 0 0 0 0 0 255\n";
    let got = canvas.write_ppm_data(&Float);
    assert_eq!(String::from_utf8(got).unwrap(), want);
}

#[test]
fn splitting_long_ppm_lines() {
    let mut canvas = Canvas::new(10, 2);
    canvas.fill(&rgb(1.0, 0.8, 0.6));
    let want = "255 204 153 255 204 153 255 204 153 255 204 153 255 204 153 255 204\n\
                153 255 204 153 255 204 153 255 204 153 255 204 153\n\
                255 204 153 255 204 153 255 204 153 255 204 153 255 204 153 255 204\n\
                153 255 204 153 255 204 153 255 204 153 255 204 153\n";
    let got = canvas.write_ppm_data(&Float);
    assert_eq!(String::from_utf8(got).unwrap(), want);
}

#[test]
fn exporting_whole_picture() {
    let mut canvas = Canvas::new(5, 3);
    canvas.set(0, 0, &color::red()).unwrap();
    canvas.set(2, 1, &rgb(0.0, 0.5, 0.0)).unwrap();
    canvas.set(4, 2, &rgb(-0.5, 0.0, 1.0)).unwrap();
    let want = "P3\n5 3\n255\n\
                255 0 0 0 0 0 0 0 0 0 0 0 0 0 0\n\
                0 0 0 0 0 0 0 128 0 0 0 0 0 0 0\n\
                0 0 0 0 0 0 0 0 0 0 0 0 0 0 255\n";
    let got = canvas.to_ppm(&Float);
    assert_eq!(String::from_utf8(got).unwrap(), want);
}

#[test]
fn no_exported_line_is_longer_than_70_characters() {
    let mut canvas = Canvas::new(23, 4);
    canvas.fill(&rgb(1.0, 0.04, 0.5));
    canvas.set(7, 2, &rgb(0.0, 0.0, 0.0)).unwrap();
    let got = String::from_utf8(canvas.to_ppm(&Float)).unwrap();
    assert!(got.ends_with('\n'));
    assert!(got.lines().all(|line| line.len() <= 70));
    let values: Vec<&str> = got.lines().skip(3).flat_map(|line| line.split(' ')).collect();
    assert_eq!(values.len(), 23 * 4 * 3);
    assert_eq!(&values[0..3], &["255", "10", "128"]);
}

#[test]
fn exporting_empty_canvas() {
    let canvas = Canvas::new(0, 0);
    assert_eq!(canvas.write_ppm_data(&Float), Vec::<u8>::new());
    assert_eq!(String::from_utf8(canvas.to_ppm(&Float)).unwrap(), "P3\n0 0\n255\n");
    let flat = Canvas::new(0, 3);
    assert_eq!(flat.write_ppm_data(&Float), Vec::<u8>::new());
}

#[test]
fn writing_samples() {
    let samples = vec![
        ScaledColor::new(0, 9, 10),
        ScaledColor::new(99, 100, 255),
        ScaledColor::new(256, -1, 7),
    ];
    let got = write_data(3, 1, &samples);
    assert_eq!(String::from_utf8(got).unwrap(), "0 9 10 99 100 255 255 0 7\n");
    let got = write_data(1, 3, &samples);
    assert_eq!(String::from_utf8(got).unwrap(), "0 9 10\n99 100 255\n255 0 7\n");
}

#[test]
fn scaling_colors() {
    assert_eq!(scale_color(&rgb(1.0, 0.8, 0.6), &Float), ScaledColor::new(255, 204, 153));
    assert_eq!(scale_color(&rgb(1.5, 0.5, -0.5), &Float), ScaledColor::new(383, 128, -128));
    assert_eq!(scale_color(&rgb(0.0, 0.001, 0.002), &Float), ScaledColor::new(0, 0, 1));
    let mut canvas = Canvas::new(2, 1);
    canvas.set(1, 0, &rgb(1.0, 0.8, 0.6)).unwrap();
    assert_eq!(
        canvas.samples(&Float),
        vec![ScaledColor::new(0, 0, 0), ScaledColor::new(255, 204, 153)]
    );
}

#[test]
fn clamping_samples() {
    assert_eq!(clamp_sample(-1), 0);
    assert_eq!(clamp_sample(i32::MIN), 0);
    assert_eq!(clamp_sample(0), 0);
    assert_eq!(clamp_sample(128), 128);
    assert_eq!(clamp_sample(255), 255);
    assert_eq!(clamp_sample(256), 255);
    assert_eq!(clamp_sample(i32::MAX), 255);
    let c = ScaledColor::new(383, -128, 7);
    assert_eq!((c.channel(0), c.channel(1), c.channel(2)), (383, -128, 7));
}
