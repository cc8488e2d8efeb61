use dota_clock::pixels::{build_icon_cache, decode_icon, icon_from_rgba};
use dota_clock::icons::ICON_COUNT;

#[test]
fn rgba_rows_flip_and_premultiply() {
    // 2x2: top row red (opaque), half-transparent green; bottom row blue, clear white.
    let rgba = vec![
        255, 0, 0, 255, 0, 200, 0, 128, //
        0, 0, 255, 255, 255, 255, 255, 0,
    ];
    let icon = icon_from_rgba(&rgba, 2);
    assert_eq!((icon.width, icon.height), (2, 2));
    assert_eq!(
        icon.pixels,
        vec![
            255, 0, 0, 255, 0, 0, 0, 0, //
            0, 0, 255, 255, 0, 100, 0, 128,
        ]
    );
}

#[test]
fn rgba_empty_icon() {
    let icon = icon_from_rgba(&[], 0);
    assert_eq!((icon.width, icon.height, icon.pixels.len()), (0, 0, 0));
}

fn png_2x2() -> Vec<u8> {
    let img = image::RgbaImage::from_raw(2, 2, vec![
        255, 0, 0, 255, 0, 200, 0, 128, //
        0, 0, 255, 255, 255, 255, 255, 0,
    ])
    .unwrap();
    let mut out = std::io::Cursor::new(Vec::new());
    image::DynamicImage::ImageRgba8(img).write_to(&mut out, image::ImageFormat::Png).unwrap();
    out.into_inner()
}

#[test]
fn decode_icon_at_own_size() {
    let icon = decode_icon(&png_2x2(), 2).unwrap();
    assert_eq!((icon.width, icon.height), (2, 2));
    assert_eq!(icon.pixels, vec![255, 0, 0, 255, 0, 0, 0, 0, 0, 0, 255, 255, 0, 100, 0, 128]);
}

#[test]
fn decode_icon_scaled() {
    let icon = decode_icon(&png_2x2(), 4).unwrap();
    assert_eq!((icon.width, icon.height), (4, 4));
    assert_eq!(icon.pixels.len(), 64);
}

#[test]
fn try_decode_rejects_garbage() {
    assert!(decode_icon(b"not a png", 4).is_none());
    assert!(decode_icon(&png_2x2(), 3).is_some());
}

#[test]
fn icon_cache_in_icon_order() {
    let pngs: Vec<Vec<u8>> = (0..ICON_COUNT).map(|_| png_2x2()).collect();
    let cache = build_icon_cache(2, &pngs).unwrap();
    assert_eq!(cache.len(), ICON_COUNT);
    assert!(cache.iter().all(|c| c.pixels.len() == 16));
    let mut broken = pngs.clone();
    broken[5] = vec![1, 2, 3];
    assert!(build_icon_cache(2, &broken).is_none());
}
