use std::rc::Rc;

use iced::cache::{Cache, Handle};

fn svg_bytes(w: u32, h: u32) -> Vec<u8> {
    format!(
        "<svg xmlns='http://www.w3.org/2000/svg' width='{}' height='{}'></svg>",
        w, h
    )
    .into_bytes()
}

#[test]
fn load_reports_intrinsic_size() {
    let mut cache = Cache::new();
    let handle = Handle::new(1, svg_bytes(100, 50));
    let doc = cache.load(&handle);
    assert_eq!(doc.viewport_dimensions(), (100, 50));
    assert_eq!(cache.document_count(), 1);
}

#[test]
fn load_records_parse_failure_as_not_found() {
    let mut cache = Cache::new();
    let handle = Handle::new(2, b"this is not an svg".to_vec());
    let doc = cache.load(&handle);
    assert_eq!(doc.viewport_dimensions(), (1, 1));
    assert_eq!(cache.document_count(), 1);
    assert!(cache.upload(&handle, 10, 10, 100).is_none());
}

#[test]
fn upload_rasterizes_once_and_shares_the_bitmap() {
    let mut cache = Cache::new();
    let handle = Handle::new(3, svg_bytes(10, 10));
    let first = cache.upload(&handle, 10, 10, 100).expect("first upload");
    let second = cache.upload(&handle, 10, 10, 100).expect("second upload");
    assert!(Rc::ptr_eq(&first, &second));
    assert_eq!(cache.rasterized_count(), 1);
}

#[test]
fn distinct_sizes_share_one_parsed_document() {
    let mut cache = Cache::new();
    let handle = Handle::new(4, svg_bytes(10, 10));
    assert!(cache.upload(&handle, 10, 10, 100).is_some());
    assert!(cache.upload(&handle, 20, 20, 100).is_some());
    assert!(cache.upload(&handle, 30, 30, 100).is_some());
    assert_eq!(cache.document_count(), 1);
    assert_eq!(cache.rasterized_count(), 3);
}

#[test]
fn upload_scales_by_the_requested_size_alone() {
    // a 100-by-100 asset requested at a 50-by-50 logical size and scale 2.0:
    // the target is the logical size times the scale, not the viewport
    let mut cache = Cache::new();
    let handle = Handle::new(5, svg_bytes(100, 100));
    let bitmap = cache.upload(&handle, 50, 50, 200).expect("upload");
    assert_eq!(bitmap.width, 100);
    assert_eq!(bitmap.height, 100);
    assert_eq!(bitmap.pixels.len(), 4 * 100 * 100);
}

#[test]
fn upload_rounds_the_scaled_extent() {
    let mut cache = Cache::new();
    let handle = Handle::new(6, svg_bytes(10, 10));
    let bitmap = cache.upload(&handle, 10, 10, 25).expect("upload");
    assert_eq!((bitmap.width, bitmap.height), (3, 3));
}

#[test]
fn upload_of_a_degenerate_extent_yields_nothing() {
    let mut cache = Cache::new();
    let handle = Handle::new(7, svg_bytes(10, 10));
    assert!(cache.upload(&handle, 0, 10, 100).is_none());
    assert!(cache.upload(&handle, 10, 10, 4).is_none());
    assert_eq!(cache.rasterized_count(), 0);
}

#[test]
fn trim_keeps_the_touched_and_evicts_the_rest() {
    let mut cache = Cache::new();
    let a = Handle::new(8, svg_bytes(10, 10));
    let b = Handle::new(9, svg_bytes(20, 20));
    assert!(cache.upload(&a, 10, 10, 100).is_some());
    assert!(cache.upload(&b, 20, 20, 100).is_some());
    cache.trim();
    assert_eq!(cache.rasterized_count(), 2);
    // only `a` is requested this frame
    let before = cache.upload(&a, 10, 10, 100).expect("hit");
    cache.trim();
    assert_eq!(cache.rasterized_count(), 1);
    assert_eq!(cache.document_count(), 1);
    // the survivor is still the same shared bitmap
    let after = cache.upload(&a, 10, 10, 100).expect("hit after trim");
    assert!(Rc::ptr_eq(&before, &after));
}

#[test]
fn trim_twice_empties_the_cache() {
    let mut cache = Cache::new();
    let handle = Handle::new(10, svg_bytes(10, 10));
    assert!(cache.upload(&handle, 10, 10, 100).is_some());
    cache.trim();
    cache.trim();
    assert_eq!(cache.document_count(), 0);
    assert_eq!(cache.rasterized_count(), 0);
}
