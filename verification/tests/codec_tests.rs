use glview::codec::AssetError;
use glview::view::RenderView;

/// A 2x1 pixel, 24-bit uncompressed BMP: one red pixel, one green pixel.
fn two_pixel_bmp() -> Vec<u8> {
    vec![
        0x42, 0x4D, // "BM"
        62, 0, 0, 0, // file size: 54 byte headers + 8 byte row
        0, 0, 0, 0, // reserved
        54, 0, 0, 0, // pixel data offset
        40, 0, 0, 0, // info header size
        2, 0, 0, 0, // width
        1, 0, 0, 0, // height
        1, 0, // planes
        24, 0, // bits per pixel
        0, 0, 0, 0, // no compression
        8, 0, 0, 0, // image size
        0, 0, 0, 0, // x pixels per metre
        0, 0, 0, 0, // y pixels per metre
        0, 0, 0, 0, // colours used
        0, 0, 0, 0, // important colours
        0, 0, 255, // pixel (0,0): blue, green, red
        0, 255, 0, // pixel (1,0)
        0, 0, // row padding
    ]
}

#[test]
fn decode_yields_rgba_pixels() {
    let img = match RenderView::decode_image(&two_pixel_bmp()) {
        Ok(img) => img,
        Err(_) => panic!("decode failed"),
    };
    assert_eq!(img.width, 2);
    assert_eq!(img.height, 1);
    assert_eq!(img.pixels, vec![255, 0, 0, 255, 0, 255, 0, 255]);
    assert_eq!(img.pixels.len(), 4 * 2 * 1);
}

#[test]
fn decode_rejects_malformed_bytes() {
    let r = RenderView::decode_image(&vec![1, 2, 3, 4]);
    assert!(matches!(r, Err(AssetError::DecodeFailed)));
}

#[test]
fn decode_rejects_empty_bytes() {
    let r = RenderView::decode_image(&Vec::new());
    assert!(matches!(r, Err(AssetError::DecodeFailed)));
}
