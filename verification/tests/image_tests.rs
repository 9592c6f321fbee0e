use opencrosshair::crosshair_image::{builtin_crosshair_bytes, crosshair_from_decoded, load_crosshair_image};

#[test]
fn builtin_crosshair_decodes() {
    let img = load_crosshair_image(None).expect("built-in crosshair");
    assert_eq!((img.width, img.height), (64, 64));
    assert_eq!(img.pixels.len(), 64 * 64 * 4);
    let at = |x: usize, y: usize| &img.pixels[(y * 64 + x) * 4..(y * 64 + x) * 4 + 4];
    assert_eq!(at(31, 5), &[255, 255, 255, 255]);
    assert_eq!(at(5, 32), &[255, 255, 255, 255]);
    assert_eq!(at(0, 0), &[0, 0, 0, 0]);
    assert_eq!(at(32, 32), &[0, 0, 0, 0]);
}

#[test]
fn builtin_bytes_are_a_png_file() {
    let png = builtin_crosshair_bytes();
    assert_eq!(&png[..8], &[0x89, b'P', b'N', b'G', 0x0d, 0x0a, 0x1a, 0x0a]);
}

#[test]
fn custom_image_is_decoded_instead_of_builtin() {
    // A 2x1 binary PPM: one red and one green pixel.
    let mut ppm = b"P6\n2 1\n255\n".to_vec();
    ppm.extend_from_slice(&[255, 0, 0, 0, 255, 0]);
    let img = load_crosshair_image(Some((&ppm, "ppm"))).expect("ppm decodes");
    assert_eq!((img.width, img.height), (2, 1));
    assert_eq!(img.pixels, vec![255, 0, 0, 255, 0, 255, 0, 255]);
    let upper = load_crosshair_image(Some((&ppm, "PPM"))).expect("extension case is ignored");
    assert_eq!(upper.pixels, img.pixels);
}

#[test]
fn format_comes_from_the_extension() {
    let mut ppm = b"P6\n2 1\n255\n".to_vec();
    ppm.extend_from_slice(&[255, 0, 0, 0, 255, 0]);
    assert!(load_crosshair_image(Some((&ppm, "png"))).is_none());
    assert!(load_crosshair_image(Some((&ppm, ""))).is_none());
    assert!(load_crosshair_image(Some((&ppm, "txt"))).is_none());
    let png = builtin_crosshair_bytes();
    assert!(load_crosshair_image(Some((&png, "png"))).is_some());
    assert!(load_crosshair_image(Some((&png, "jpg"))).is_none());
}

#[test]
fn tga_files_decode() {
    // An uncompressed true-colour TGA of 1x1 pixel, top-left origin, 8 alpha bits.
    let mut tga = vec![0, 0, 2, 0, 0, 0, 0, 0, 0, 0, 0, 0, 1, 0, 1, 0, 32, 0x28];
    tga.extend_from_slice(&[10, 20, 30, 40]); // blue, green, red, alpha
    let img = load_crosshair_image(Some((&tga, "tga"))).expect("tga decodes");
    assert_eq!((img.width, img.height), (1, 1));
    assert_eq!(img.pixels, vec![30, 20, 10, 40]);
}

#[test]
fn undecodable_bytes_give_none() {
    assert!(load_crosshair_image(Some((b"not an image", "png"))).is_none());
    assert!(load_crosshair_image(Some((&[], "png"))).is_none());
    let mut png = builtin_crosshair_bytes();
    png.truncate(40);
    assert!(load_crosshair_image(Some((&png, "png"))).is_none());
}

#[test]
fn decoded_parts_become_the_image() {
    let img = crosshair_from_decoded(Some((1, 2, vec![1, 2, 3, 4, 5, 6, 7, 8]))).unwrap();
    assert_eq!((img.width, img.height, img.pixels), (1, 2, vec![1, 2, 3, 4, 5, 6, 7, 8]));
    assert!(crosshair_from_decoded(None).is_none());
}
