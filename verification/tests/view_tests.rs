use glview::view::{LoopAction, LoopEvent, RenderView};

#[test]
fn new_view_starts_empty() {
    let v = RenderView::new(800, 600);
    assert_eq!(v.width(), 800);
    assert_eq!(v.height(), 600);
    assert_eq!(v.texture_count(), 0);
    assert_eq!(v.bound_texture(), None);
    assert!(!v.texture_cached("img1"));
}

#[test]
fn resize_updates_dimensions_exactly() {
    let mut v = RenderView::new(800, 600);
    v.resize(1024, 768);
    assert_eq!(v.width(), 1024);
    assert_eq!(v.height(), 768);
    assert_eq!(v.texture_count(), 0);
    assert_eq!(v.bound_texture(), None);
}

#[test]
fn resize_keeps_the_cache() {
    let mut v = RenderView::new(800, 600);
    v.load_texture("img1", 7);
    v.resize(320, 240);
    assert!(v.texture_cached("img1"));
    assert_eq!(v.bind_texture("img1"), Some(7));
}

#[test]
fn repeated_load_is_a_noop() {
    let mut v = RenderView::new(800, 600);
    assert!(!v.texture_cached("img1"));
    v.load_texture("img1", 7);
    assert!(v.texture_cached("img1"));
    assert_eq!(v.texture_count(), 1);
    // A second load of the same identifier must leave the cache size and
    // the stored handle untouched, whatever handle it arrives with.
    v.load_texture("img1", 99);
    assert_eq!(v.texture_count(), 1);
    assert_eq!(v.bind_texture("img1"), Some(7));
}

#[test]
fn distinct_ids_get_distinct_entries() {
    let mut v = RenderView::new(800, 600);
    v.load_texture("img1", 7);
    v.load_texture("img2", 8);
    assert_eq!(v.texture_count(), 2);
    assert_eq!(v.bind_texture("img1"), Some(7));
    assert_eq!(v.bind_texture("img2"), Some(8));
    // Binding one identifier never disturbs the other's stored handle.
    assert_eq!(v.bind_texture("img1"), Some(7));
}

#[test]
fn bind_miss_is_a_silent_noop() {
    let mut v = RenderView::new(800, 600);
    v.load_texture("img1", 7);
    assert_eq!(v.bind_texture("img1"), Some(7));
    assert_eq!(v.bound_texture(), Some(7));
    assert_eq!(v.bind_texture("unknown"), None);
    assert_eq!(v.bound_texture(), Some(7));
    assert_eq!(v.texture_count(), 1);
}

#[test]
fn load_binds_the_fresh_texture() {
    let mut v = RenderView::new(800, 600);
    assert_eq!(v.bound_texture(), None);
    v.load_texture("img1", 7);
    // The upload leaves the fresh texture bound to the 2D target.
    assert_eq!(v.bound_texture(), Some(7));
}

#[test]
fn end_to_end_create_load_bind() {
    // The host-side sequence: create the view, fetch and decode the one
    // startup image, upload it (handle 1 here), record and bind it.
    let mut v = RenderView::new(800, 600);
    let bytes = tiny_bmp();
    let img = match RenderView::decode_image(&bytes) {
        Ok(img) => img,
        Err(_) => panic!("decode failed"),
    };
    assert_eq!(img.width, 2);
    assert_eq!(img.height, 1);
    if !v.texture_cached("img1") {
        v.load_texture("img1", 1);
    }
    assert_eq!(v.bind_texture("img1"), Some(1));
    assert_eq!(v.bound_texture(), Some(1));
    assert_eq!(v.texture_count(), 1);
}

#[test]
fn drive_loop_events() {
    let mut v = RenderView::new(800, 600);
    v.load_texture("img1", 7);
    assert_eq!(v.bind_texture("img1"), Some(7));

    // An idle tick draws a frame and changes nothing.
    assert_eq!(v.handle_event(&LoopEvent::Tick), LoopAction::RenderFrame);
    assert_eq!(v.width(), 800);
    assert_eq!(v.bound_texture(), Some(7));

    // A resize is absorbed into the stored dimensions and keeps driving.
    assert_eq!(v.handle_event(&LoopEvent::Resized(1024, 768)), LoopAction::Continue);
    assert_eq!(v.width(), 1024);
    assert_eq!(v.height(), 768);
    assert_eq!(v.texture_count(), 1);

    // A close request stops the loop and changes nothing.
    assert_eq!(v.handle_event(&LoopEvent::CloseRequested), LoopAction::Stop);
    assert_eq!(v.width(), 1024);
    assert_eq!(v.bound_texture(), Some(7));
}

/// A 2x1 pixel, 24-bit uncompressed BMP: one red pixel, one green pixel.
fn tiny_bmp() -> Vec<u8> {
    vec![
        0x42, 0x4D, // "BM"
        62, 0, 0, 0, // file size: 54 byte headers + 8 byte row
        0, 0, 0, 0, // reserved
        54, 0, 0, 0, // pixel data offset
        40, 0, 0, 0, // info header size
        2, 0, 0, 0, // width
        1, 0, 0, 0, // height
        1, 0, // planes
        24, 0, // bits per pixel
        0, 0, 0, 0, // no compression
        8, 0, 0, 0, // image size
        0, 0, 0, 0, // x pixels per metre
        0, 0, 0, 0, // y pixels per metre
        0, 0, 0, 0, // colours used
        0, 0, 0, 0, // important colours
        0, 0, 255, // pixel (0,0): blue, green, red
        0, 255, 0, // pixel (1,0)
        0, 0, // row padding
    ]
}
