use img_diff::{
    decode_image, encode_image, image_kind, load_pair, FilePath, ImageKind, LoadError, RgbaImage,
};
use std::io::Cursor;

fn path(text: &str) -> FilePath {
    FilePath::new(text.split('/').map(String::from).collect())
}

fn sample_image() -> RgbaImage {
    let pixels: Vec<u8> = (0..24).map(|i| (i * 10) as u8).collect();
    RgbaImage::from_raw(3, 2, pixels).unwrap()
}

fn bmp_bytes() -> Vec<u8> {
    let mut rgb = image::RgbImage::new(2, 1);
    rgb.put_pixel(0, 0, image::Rgb([1, 2, 3]));
    rgb.put_pixel(1, 0, image::Rgb([250, 251, 252]));
    let mut out = Cursor::new(Vec::new());
    rgb.write_to(&mut out, image::ImageOutputFormat::Bmp).unwrap();
    out.into_inner()
}

#[test]
fn kind_comes_from_the_extension_ignoring_case() {
    assert_eq!(image_kind(&path("a/b.png")), Some(ImageKind::Png));
    assert_eq!(image_kind(&path("a/MARBLES_01.BMP")), Some(ImageKind::Bmp));
    assert_eq!(image_kind(&path("x.PnG")), Some(ImageKind::Png));
    assert_eq!(image_kind(&path("archive.tar.bmp")), Some(ImageKind::Bmp));
    assert_eq!(image_kind(&path("..png")), Some(ImageKind::Png));
}

#[test]
fn names_without_a_known_extension_have_no_kind() {
    assert_eq!(image_kind(&path(".png")), None);
    assert_eq!(image_kind(&path("png")), None);
    assert_eq!(image_kind(&path("photo.jpg")), None);
    assert_eq!(image_kind(&path("photo.pngx")), None);
    assert_eq!(image_kind(&path("photo.")), None);
    assert_eq!(image_kind(&FilePath::new(vec![])), None);
}

#[test]
fn png_encoding_round_trips() {
    let img = sample_image();
    let bytes = encode_image(&img).unwrap();
    assert_eq!(&bytes[1..4], b"PNG");
    assert_ne!(bytes, img.pixels);
    let back = decode_image(Some(ImageKind::Png), &bytes).unwrap();
    assert_eq!((back.width, back.height), (3, 2));
    assert_eq!(back.pixels, img.pixels);
}

#[test]
fn bmp_decodes_to_opaque_rgba() {
    let back = decode_image(Some(ImageKind::Bmp), &bmp_bytes()).unwrap();
    assert_eq!((back.width, back.height), (2, 1));
    assert_eq!(back.pixels, vec![1, 2, 3, 255, 250, 251, 252, 255]);
}

#[test]
fn undecodable_bytes_are_a_codec_error() {
    let r = decode_image(Some(ImageKind::Png), &vec![1, 2, 3, 4]);
    assert!(matches!(r, Err(LoadError::Codec(_))));
    let png = encode_image(&sample_image()).unwrap();
    assert!(matches!(decode_image(Some(ImageKind::Bmp), &png), Err(LoadError::Codec(_))));
}

#[test]
fn unknown_kind_is_refused_before_decoding() {
    let png = encode_image(&sample_image()).unwrap();
    assert!(matches!(decode_image(None, &png), Err(LoadError::UnknownKind)));
}

#[test]
fn load_pair_decodes_both_sides() {
    let png = encode_image(&sample_image()).unwrap();
    let (s, d) = load_pair(path("s/a.png"), Ok(png.clone()), path("d/a.png"), Ok(png));
    assert_eq!(s.path.parts, vec!["s", "a.png"]);
    assert_eq!(d.path.parts, vec!["d", "a.png"]);
    assert_eq!(s.image.unwrap().pixels, sample_image().pixels);
    assert_eq!(d.image.unwrap().pixels, sample_image().pixels);
}

#[test]
fn load_pair_refuses_mixed_kinds() {
    let png = encode_image(&sample_image()).unwrap();
    let (s, d) = load_pair(path("s/a.png"), Ok(png.clone()), path("d/a.bmp"), Ok(png));
    assert!(s.image.is_ok());
    assert!(matches!(d.image, Err(LoadError::KindMismatch)));
}

#[test]
fn load_pair_passes_read_failures_on() {
    let png = encode_image(&sample_image()).unwrap();
    let (s, d) = load_pair(
        path("s/a.png"),
        Err("no such file".to_string()),
        path("d/a.png"),
        Ok(png),
    );
    match s.image {
        Err(LoadError::Unreadable(m)) => assert_eq!(m, "no such file"),
        other => panic!("unexpected: {:?}", other),
    }
    assert!(d.image.is_ok());
}
