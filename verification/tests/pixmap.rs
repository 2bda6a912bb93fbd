use tui_image::pixmap::{FilterType, Pixmap, Rgb};

fn sample(x: u32, y: u32, channel: u32) -> u8 {
    ((x * 37 + y * 101 + channel * 53 + x * y * 7) % 256) as u8
}

fn pattern(width: u32, height: u32) -> Vec<u8> {
    let mut samples = Vec::new();
    for y in 0..height {
        for x in 0..width {
            for channel in 0..3 {
                samples.push(sample(x, y, channel));
            }
        }
    }
    samples
}

fn outside_resize(
    width: u32,
    height: u32,
    new_width: u32,
    new_height: u32,
    filter: image::imageops::FilterType,
) -> Vec<u8> {
    let source = image::RgbImage::from_raw(width, height, pattern(width, height)).unwrap();
    image::imageops::resize(&source, new_width, new_height, filter).into_raw()
}

#[test]
fn new_takes_three_samples_for_each_pixel() {
    let pixmap = Pixmap::new(4, 3, pattern(4, 3)).unwrap();
    assert_eq!(pixmap.width(), 4);
    assert_eq!(pixmap.height(), 3);
    assert_eq!(pixmap.samples(), &pattern(4, 3));
}

#[test]
fn new_refuses_a_wrong_number_of_samples() {
    assert!(Pixmap::new(4, 3, pattern(4, 2)).is_none());
    assert!(Pixmap::new(4, 3, vec![0; 35]).is_none());
    assert!(Pixmap::new(4, 3, vec![0; 37]).is_none());
    assert!(Pixmap::new(1, 1, vec![0; 4]).is_none());
    assert!(Pixmap::new(0, 0, vec![0; 3]).is_none());
    assert!(Pixmap::new(u32::MAX, u32::MAX, vec![0; 3]).is_none());
}

#[test]
fn new_takes_an_empty_image() {
    let empty = Pixmap::new(0, 0, Vec::new()).unwrap();
    assert_eq!(empty.width(), 0);
    assert_eq!(empty.height(), 0);
    let flat = Pixmap::new(7, 0, Vec::new()).unwrap();
    assert_eq!(flat.width(), 7);
    assert_eq!(flat.height(), 0);
    assert!(flat.pixel(0, 0).is_none());
}

#[test]
fn pixel_reads_row_by_row() {
    let pixmap = Pixmap::new(4, 3, pattern(4, 3)).unwrap();
    for y in 0..3 {
        for x in 0..4 {
            let expected = Rgb { r: sample(x, y, 0), g: sample(x, y, 1), b: sample(x, y, 2) };
            assert_eq!(pixmap.pixel(x, y), Some(expected));
        }
    }
    let raw = Pixmap::new(2, 2, vec![1, 2, 3, 4, 5, 6, 7, 8, 9, 10, 11, 12]).unwrap();
    assert_eq!(raw.pixel(1, 0), Some(Rgb { r: 4, g: 5, b: 6 }));
    assert_eq!(raw.pixel(0, 1), Some(Rgb { r: 7, g: 8, b: 9 }));
}

#[test]
fn pixel_outside_the_image_is_none() {
    let pixmap = Pixmap::new(4, 3, pattern(4, 3)).unwrap();
    assert_eq!(pixmap.pixel(4, 0), None);
    assert_eq!(pixmap.pixel(0, 3), None);
    assert_eq!(pixmap.pixel(u32::MAX, u32::MAX), None);
}

#[test]
fn resize_gives_what_the_image_crate_gives() {
    let pixmap = Pixmap::new(20, 20, pattern(20, 20)).unwrap();
    let cases = [
        (FilterType::Nearest, image::imageops::FilterType::Nearest),
        (FilterType::Triangle, image::imageops::FilterType::Triangle),
        (FilterType::CatmullRom, image::imageops::FilterType::CatmullRom),
        (FilterType::Gaussian, image::imageops::FilterType::Gaussian),
        (FilterType::Lanczos3, image::imageops::FilterType::Lanczos3),
    ];
    for (filter, outside) in cases {
        let smaller = pixmap.resize(10, 10, filter).unwrap();
        assert_eq!(smaller.width(), 10);
        assert_eq!(smaller.height(), 10);
        assert_eq!(smaller.samples(), &outside_resize(20, 20, 10, 10, outside));
        let larger = pixmap.resize(24, 30, filter).unwrap();
        assert_eq!(larger.samples().len(), 3 * 24 * 30);
        assert_eq!(larger.samples(), &outside_resize(20, 20, 24, 30, outside));
    }
}

#[test]
fn resize_filters_differ() {
    let pixmap = Pixmap::new(20, 20, pattern(20, 20)).unwrap();
    let nearest = pixmap.resize(10, 10, FilterType::Nearest).unwrap();
    let lanczos = pixmap.resize(10, 10, FilterType::Lanczos3).unwrap();
    let triangle = pixmap.resize(10, 10, FilterType::Triangle).unwrap();
    assert_ne!(nearest.samples(), lanczos.samples());
    assert_ne!(triangle.samples(), lanczos.samples());
    assert_ne!(nearest.samples(), triangle.samples());
}

#[test]
fn resize_ignores_the_proportions() {
    let pixmap = Pixmap::new(3, 3, pattern(3, 3)).unwrap();
    let stretched = pixmap.resize(4, 8, FilterType::Lanczos3).unwrap();
    assert_eq!(stretched.width(), 4);
    assert_eq!(stretched.height(), 8);
    assert_eq!(stretched.samples().len(), 96);
}

#[test]
fn resize_to_the_same_size_copies() {
    let pixmap = Pixmap::new(6, 4, pattern(6, 4)).unwrap();
    for filter in [
        FilterType::Nearest,
        FilterType::Triangle,
        FilterType::CatmullRom,
        FilterType::Gaussian,
        FilterType::Lanczos3,
    ] {
        let same = pixmap.resize(6, 4, filter).unwrap();
        assert_eq!(same.width(), 6);
        assert_eq!(same.height(), 4);
        assert_eq!(same.samples(), pixmap.samples());
    }
}

#[test]
fn resize_twice_gives_the_same_samples() {
    let pixmap = Pixmap::new(9, 7, pattern(9, 7)).unwrap();
    let first = pixmap.resize(4, 6, FilterType::Lanczos3).unwrap();
    let second = pixmap.resize(4, 6, FilterType::Lanczos3).unwrap();
    assert_eq!(first.samples(), second.samples());
}

#[test]
fn resize_of_or_to_nothing_is_none() {
    let pixmap = Pixmap::new(6, 4, pattern(6, 4)).unwrap();
    assert!(pixmap.resize(0, 4, FilterType::Nearest).is_none());
    assert!(pixmap.resize(4, 0, FilterType::Nearest).is_none());
    assert!(pixmap.resize(0, 0, FilterType::Lanczos3).is_none());
    let empty = Pixmap::new(0, 0, Vec::new()).unwrap();
    assert!(empty.resize(4, 4, FilterType::Lanczos3).is_none());
    let flat = Pixmap::new(5, 0, Vec::new()).unwrap();
    assert!(flat.resize(4, 4, FilterType::Lanczos3).is_none());
    assert!(flat.resize(5, 0, FilterType::Lanczos3).is_none());
}

#[test]
fn resize_of_one_pixel_spreads_its_colour() {
    let pixmap = Pixmap::new(1, 1, vec![10, 200, 30]).unwrap();
    let spread = pixmap.resize(2, 2, FilterType::Nearest).unwrap();
    assert_eq!(spread.samples(), &vec![10, 200, 30, 10, 200, 30, 10, 200, 30, 10, 200, 30]);
    assert_eq!(spread.pixel(1, 1), Some(Rgb { r: 10, g: 200, b: 30 }));
}
