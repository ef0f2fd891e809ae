use glam::DVec3;
use image::ImageEncoder;
use raytracer::texture::{ImageTexture, SolidColor};

fn two_by_two() -> Vec<u8> {
    vec![
        1, 2, 3, 4, 5, 6, //
        7, 8, 9, 10, 11, 12,
    ]
}

fn png_bytes(data: &[u8], width: u32, height: u32) -> Vec<u8> {
    let mut out = Vec::new();
    image::codecs::png::PngEncoder::new(&mut out)
        .write_image(data, width, height, image::ColorType::Rgb8)
        .unwrap();
    out
}

#[test]
fn solid_color_keeps_its_color() {
    let c = DVec3::new(0.25, 0.5, 0.75);
    assert_eq!(SolidColor::new(c).color(), c);
}

#[test]
fn from_rgb_keeps_matching_data() {
    let t = ImageTexture::from_rgb(two_by_two(), 2, 2);
    assert_eq!(t.width(), 2);
    assert_eq!(t.height(), 2);
    assert!(!t.is_empty());
}

#[test]
fn from_rgb_with_wrong_length_is_empty() {
    let t = ImageTexture::from_rgb(two_by_two(), 3, 2);
    assert!(t.is_empty());
    assert_eq!(t.width(), 0);
    assert_eq!(t.height(), 0);
    assert_eq!(t.texel(0, 0), None);
}

#[test]
fn from_rgb_with_overflowing_size_is_empty() {
    let t = ImageTexture::from_rgb(two_by_two(), usize::MAX, 2);
    assert!(t.is_empty());
    let t = ImageTexture::from_rgb(two_by_two(), usize::MAX / 2, 1);
    assert!(t.is_empty());
}

#[test]
fn empty_texture_has_no_texel() {
    let t = ImageTexture::empty();
    assert!(t.is_empty());
    assert_eq!(t.texel(0, 0), None);
}

#[test]
fn texel_reads_row_major_samples() {
    let t = ImageTexture::from_rgb(two_by_two(), 2, 2);
    assert_eq!(t.texel(0, 0), Some((1, 2, 3)));
    assert_eq!(t.texel(1, 0), Some((4, 5, 6)));
    assert_eq!(t.texel(0, 1), Some((7, 8, 9)));
    assert_eq!(t.texel(1, 1), Some((10, 11, 12)));
}

#[test]
fn texel_past_the_edge_reads_the_last_column_or_row() {
    let t = ImageTexture::from_rgb(two_by_two(), 2, 2);
    assert_eq!(t.texel(2, 0), Some((4, 5, 6)));
    assert_eq!(t.texel(0, 9), Some((7, 8, 9)));
    assert_eq!(t.texel(usize::MAX, usize::MAX), Some((10, 11, 12)));
}

#[test]
fn from_encoded_decodes_a_png() {
    let data = vec![
        10, 20, 30, 40, 50, 60, 70, 80, 90, //
        100, 110, 120, 130, 140, 150, 160, 170, 180,
    ];
    let t = ImageTexture::from_encoded(&png_bytes(&data, 3, 2));
    assert_eq!(t.width(), 3);
    assert_eq!(t.height(), 2);
    assert_eq!(t.texel(0, 0), Some((10, 20, 30)));
    assert_eq!(t.texel(2, 0), Some((70, 80, 90)));
    assert_eq!(t.texel(1, 1), Some((130, 140, 150)));
}

#[test]
fn from_encoded_of_other_bytes_is_empty() {
    let t = ImageTexture::from_encoded(&[1, 2, 3, 4, 5, 6]);
    assert!(t.is_empty());
    assert_eq!(t.texel(0, 0), None);
}

#[test]
fn clone_keeps_the_image() {
    let t = ImageTexture::from_rgb(two_by_two(), 2, 2);
    let c = t.clone();
    assert_eq!(c.width(), 2);
    assert_eq!(c.texel(1, 1), Some((10, 11, 12)));
}
