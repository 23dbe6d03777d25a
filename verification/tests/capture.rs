use sdock::capture::{
    retry_capture_init, CaptureCache, CaptureFrame, PixelFormat, CAPTURE_INIT_BACKOFF_MS,
    CAPTURE_INIT_RETRIES,
};
use sdock::pixel::Pixel;

fn frame_of(width: u32, height: u32, pixel_format: PixelFormat, pixels: Vec<u8>) -> CaptureFrame {
    CaptureFrame { width, height, pixel_format, pixels }
}

#[test]
fn new_cache_is_empty() {
    assert_eq!(CaptureCache::new().get(), None);
}

#[test]
fn usable_frame_replaces_the_cache() {
    let mut cache = CaptureCache::new();
    let first = frame_of(2, 1, PixelFormat::Bgrx8888, vec![1, 2, 3, 4, 5, 6, 7, 8]);
    cache.update(Some(first.clone()));
    assert_eq!(cache.get(), Some(&first));
    let second = frame_of(1, 2, PixelFormat::Bgrx8888, vec![9; 12]);
    cache.update(Some(second.clone()));
    assert_eq!(cache.get(), Some(&second));
}

#[test]
fn failed_capture_keeps_the_cache() {
    let mut cache = CaptureCache::new();
    cache.update(None);
    assert_eq!(cache.get(), None);
    let frame = frame_of(1, 1, PixelFormat::Bgrx8888, vec![1, 2, 3, 4]);
    cache.update(Some(frame.clone()));
    cache.update(None);
    assert_eq!(cache.get(), Some(&frame));
}

#[test]
fn unrecognized_format_keeps_the_cache() {
    let mut cache = CaptureCache::new();
    cache.update(Some(frame_of(1, 1, PixelFormat::Other, vec![1, 2, 3, 4])));
    assert_eq!(cache.get(), None);
    let frame = frame_of(1, 1, PixelFormat::Bgrx8888, vec![1, 2, 3, 4]);
    cache.update(Some(frame.clone()));
    cache.update(Some(frame_of(1, 1, PixelFormat::Other, vec![5, 6, 7, 8])));
    assert_eq!(cache.get(), Some(&frame));
}

#[test]
fn empty_frame_keeps_the_cache() {
    let mut cache = CaptureCache::new();
    let frame = frame_of(1, 1, PixelFormat::Bgrx8888, vec![1, 2, 3, 4]);
    cache.update(Some(frame.clone()));
    cache.update(Some(frame_of(0, 5, PixelFormat::Bgrx8888, vec![0; 20])));
    assert_eq!(cache.get(), Some(&frame));
    cache.update(Some(frame_of(5, 0, PixelFormat::Bgrx8888, vec![0; 20])));
    assert_eq!(cache.get(), Some(&frame));
    cache.update(Some(frame_of(0, 0, PixelFormat::Bgrx8888, Vec::new())));
    assert_eq!(cache.get(), Some(&frame));
}

#[test]
fn truncated_frame_keeps_the_cache() {
    let mut cache = CaptureCache::new();
    let frame = frame_of(1, 1, PixelFormat::Bgrx8888, vec![1, 2, 3, 4]);
    cache.update(Some(frame.clone()));
    cache.update(Some(frame_of(2, 2, PixelFormat::Bgrx8888, vec![0; 15])));
    assert_eq!(cache.get(), Some(&frame));
    let padded = frame_of(2, 2, PixelFormat::Bgrx8888, vec![0; 24]);
    cache.update(Some(padded.clone()));
    assert_eq!(cache.get(), Some(&padded));
}

#[test]
fn usability_of_frames() {
    assert!(frame_of(2, 2, PixelFormat::Bgrx8888, vec![0; 16]).is_usable());
    assert!(frame_of(2, 2, PixelFormat::Bgrx8888, vec![0; 17]).is_usable());
    assert!(!frame_of(2, 2, PixelFormat::Bgrx8888, vec![0; 15]).is_usable());
    assert!(!frame_of(2, 2, PixelFormat::Other, vec![0; 16]).is_usable());
    assert!(!frame_of(0, 2, PixelFormat::Bgrx8888, vec![0; 16]).is_usable());
    assert!(!frame_of(2, 0, PixelFormat::Bgrx8888, vec![0; 16]).is_usable());
    assert!(!frame_of(u32::MAX, u32::MAX, PixelFormat::Bgrx8888, vec![0; 16]).is_usable());
}

#[test]
fn pixel_count_is_width_times_height() {
    assert_eq!(frame_of(3, 5, PixelFormat::Other, Vec::new()).pixel_count(), 15);
    assert_eq!(frame_of(0, 5, PixelFormat::Other, Vec::new()).pixel_count(), 0);
    assert_eq!(
        frame_of(u32::MAX, u32::MAX, PixelFormat::Other, Vec::new()).pixel_count(),
        18446744065119617025
    );
}

#[test]
fn pixel_reads_red_green_blue_in_memory_order() {
    let frame = frame_of(2, 1, PixelFormat::Bgrx8888, vec![10, 20, 30, 40, 50, 60, 70, 80]);
    assert_eq!(frame.pixel(0), Some(Pixel { b: 30, g: 20, r: 10, a: 255 }));
    assert_eq!(frame.pixel(1), Some(Pixel { b: 70, g: 60, r: 50, a: 255 }));
    assert_eq!(frame.pixel(2), None);
    assert_eq!(frame.pixel(u64::MAX), None);
}

#[test]
fn pixel_is_absent_where_the_frame_cannot_give_it() {
    let other = frame_of(1, 1, PixelFormat::Other, vec![1, 2, 3, 4]);
    assert_eq!(other.pixel(0), None);
    let short = frame_of(2, 1, PixelFormat::Bgrx8888, vec![1, 2, 3, 4, 5, 6, 7]);
    assert_eq!(short.pixel(0), Some(Pixel { b: 3, g: 2, r: 1, a: 255 }));
    assert_eq!(short.pixel(1), None);
    let long = frame_of(1, 1, PixelFormat::Bgrx8888, vec![1, 2, 3, 4, 5, 6, 7, 8]);
    assert_eq!(long.pixel(1), None);
}

#[test]
fn capture_start_is_retried_nine_times() {
    assert_eq!(CAPTURE_INIT_RETRIES, 9);
    assert_eq!(CAPTURE_INIT_BACKOFF_MS, 800);
    let mut left = CAPTURE_INIT_RETRIES;
    let mut starts = 0;
    while let Some(next) = retry_capture_init(left, true) {
        starts += 1;
        left = next;
    }
    assert_eq!(starts, 9);
    assert_eq!(left, 0);
}

#[test]
fn capture_start_is_not_retried_after_success() {
    assert_eq!(retry_capture_init(9, false), None);
    assert_eq!(retry_capture_init(0, false), None);
    assert_eq!(retry_capture_init(0, true), None);
    assert_eq!(retry_capture_init(1, true), Some(0));
    assert_eq!(retry_capture_init(u32::MAX, true), Some(u32::MAX - 1));
}
