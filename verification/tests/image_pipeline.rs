use copygum::image_handler::extract_dominant_color;
use copygum::image_handler::image_fingerprint;
use copygum::image_handler::image_filename;
use copygum::image_handler::join_path;
use copygum::image_handler::make_data_url;
use copygum::image_handler::prepare_clipboard_image;
use copygum::image_handler::thumb_filename;
use copygum::image_handler::thumbnail_dims;

fn solid_rgba(w: u32, h: u32, rgb: [u8; 3]) -> Vec<u8> {
    let mut v = Vec::new();
    for _ in 0..(w as usize) * (h as usize) {
        v.push(rgb[0]);
        v.push(rgb[1]);
        v.push(rgb[2]);
        v.push(255);
    }
    v
}

#[test]
fn test_generate_thumbnail_large_image() {
    // A 1000x800 image is resized to fit within 400x400
    let (thumb_width, thumb_height) = thumbnail_dims(1000, 800);
    assert!(thumb_width <= 400);
    assert!(thumb_height <= 400);

    // Aspect ratio should be preserved (1000:800 = 1.25:1)
    let original_ratio = 1000.0f32 / 800.0f32;
    let thumb_ratio = thumb_width as f32 / thumb_height as f32;
    assert!((original_ratio - thumb_ratio).abs() < 0.01);
}

#[test]
fn test_generate_thumbnail_small_image() {
    // A 200x150 image remains unchanged (already smaller than 400x400)
    let (thumb_width, thumb_height) = thumbnail_dims(200, 150);
    assert_eq!(thumb_width, 200);
    assert_eq!(thumb_height, 150);
}

#[test]
fn test_thumbnail_longer_side_becomes_400() {
    assert_eq!(thumbnail_dims(1000, 800), (400, 320));
    assert_eq!(thumbnail_dims(800, 1000), (320, 400));
    assert_eq!(thumbnail_dims(401, 100), (400, 99));
    assert_eq!(thumbnail_dims(400, 400), (400, 400));
}

#[test]
fn test_extract_dominant_color() {
    // A solid red image
    let pixels = solid_rgba(100, 100, [255, 0, 0]);
    let color = extract_dominant_color(&pixels, 100, 100);
    assert_eq!(color, Some("#FF0000".to_string()));
}

#[test]
fn test_extract_dominant_color_mixed() {
    // An image with mixed colors: left half red, right half blue
    let mut pixels = Vec::new();
    for _y in 0..100u32 {
        for x in 0..100u32 {
            if x < 50 {
                pixels.extend_from_slice(&[255, 0, 0, 255]);
            } else {
                pixels.extend_from_slice(&[0, 0, 255, 255]);
            }
        }
    }
    let color = extract_dominant_color(&pixels, 100, 100);
    // Should be somewhere between red and blue (purple-ish)
    assert!(color.is_some());

    let hex = color.unwrap();
    assert!(hex.starts_with("#"));
    assert_eq!(hex.len(), 7);
}

#[test]
fn test_extract_dominant_color_empty_image() {
    let pixels: Vec<u8> = Vec::new();
    assert_eq!(extract_dominant_color(&pixels, 0, 0), None);
}

#[test]
fn test_image_fingerprint_distinguishes_and_repeats() {
    let a: Vec<u8> = vec![1, 2, 3, 4];
    let b: Vec<u8> = vec![1, 2, 3, 5];
    assert_eq!(image_fingerprint(&a), image_fingerprint(&a));
    assert_ne!(image_fingerprint(&a), image_fingerprint(&b));
    // a known FNV-1a value: the hash of the empty input is the offset basis
    let empty: Vec<u8> = Vec::new();
    assert_eq!(image_fingerprint(&empty), "cbf29ce484222325");
}

#[test]
fn test_artifact_names() {
    assert_eq!(image_filename(1736900000123, 4321), "1736900000123_4321.png");
    assert_eq!(thumb_filename(1736900000123, 4321), "1736900000123_4321_thumb.png");
    assert_eq!(join_path("/tmp/images", "a.png"), "/tmp/images/a.png");
}

#[test]
fn test_prepare_clipboard_image_small_roundtrip() {
    // Encode a 4x4 solid red PNG with the image crate, run it through the
    // pipeline, and check every computed artifact
    let img = image::RgbaImage::from_pixel(4, 4, image::Rgba([255, 0, 0, 255]));
    let mut png: Vec<u8> = Vec::new();
    image::DynamicImage::ImageRgba8(img)
        .write_to(&mut std::io::Cursor::new(&mut png), image::ImageFormat::Png)
        .unwrap();

    let p = prepare_clipboard_image(&png, 1700000000000, 2468).unwrap();
    assert_eq!(p.width, 4);
    assert_eq!(p.height, 4);
    assert_eq!(p.thumb_width, 4);
    assert_eq!(p.thumb_height, 4);
    assert_eq!(p.filename, "1700000000000_2468.png");
    assert_eq!(p.thumb_filename, "1700000000000_2468_thumb.png");
    assert_eq!(p.dominant_color, Some("#FF0000".to_string()));

    // The encoded artifact decodes back to the same image
    let back = image::load_from_memory(&p.png_bytes).unwrap().to_rgba8();
    assert_eq!(back.dimensions(), (4, 4));
    assert_eq!(back.get_pixel(0, 0), &image::Rgba([255, 0, 0, 255]));
}

#[test]
fn test_prepare_clipboard_image_resizes_large() {
    // An 800x600 image must come out with a 400x300 thumbnail artifact
    let img = image::RgbaImage::from_pixel(800, 600, image::Rgba([0, 128, 255, 255]));
    let mut png: Vec<u8> = Vec::new();
    image::DynamicImage::ImageRgba8(img)
        .write_to(&mut std::io::Cursor::new(&mut png), image::ImageFormat::Png)
        .unwrap();

    let p = prepare_clipboard_image(&png, 5, 1000).unwrap();
    assert_eq!(p.width, 800);
    assert_eq!(p.height, 600);
    assert_eq!(p.thumb_width, 400);
    assert_eq!(p.thumb_height, 300);

    let thumb = image::load_from_memory(&p.thumb_png).unwrap().to_rgba8();
    assert_eq!(thumb.dimensions(), (400, 300));
    let full = image::load_from_memory(&p.png_bytes).unwrap().to_rgba8();
    assert_eq!(full.dimensions(), (800, 600));
}

#[test]
fn test_prepare_clipboard_image_rejects_garbage() {
    let garbage: Vec<u8> = vec![0, 1, 2, 3, 4, 5];
    assert!(prepare_clipboard_image(&garbage, 1, 1000).is_none());
}

#[test]
fn test_make_data_url() {
    // "Man" encodes to "TWFu" in base64
    let data: Vec<u8> = vec![b'M', b'a', b'n'];
    assert_eq!(make_data_url("photo.png", &data), "data:image/png;base64,TWFu");
    assert_eq!(make_data_url("photo.jpg", &data), "data:image/jpeg;base64,TWFu");
    assert_eq!(make_data_url("photo.jpeg", &data), "data:image/jpeg;base64,TWFu");
    assert_eq!(make_data_url("anim.gif", &data), "data:image/gif;base64,TWFu");
    assert_eq!(make_data_url("pic.webp", &data), "data:image/webp;base64,TWFu");
    // unknown extensions default to PNG
    assert_eq!(make_data_url("mystery.bin", &data), "data:image/png;base64,TWFu");
    // padding: one byte encodes to four characters with '='
    let one: Vec<u8> = vec![b'M'];
    assert_eq!(make_data_url("a.png", &one), "data:image/png;base64,TQ==");
}
