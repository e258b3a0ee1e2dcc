use image::{Rgba as PixelRgba, RgbaImage};
use yolo_mark_rs::decode::{decode_image, DecodeResult, ImageParseError, TargetSize};
use yolo_mark_rs::channel::Polled;
use yolo_mark_rs::image_cache::{next_step, DecodeRequest, ImageCache, ImageLookup, WorkerPort, WorkerStep};
use yolo_mark_rs::image_file::ImageFile;
use yolo_mark_rs::pixels::Rgba;

/// The RGBA bytes of a one-colour image.
fn solid(width: u32, height: u32, px: [u8; 4]) -> Vec<u8> {
    RgbaImage::from_pixel(width, height, PixelRgba(px)).into_raw()
}

fn image_list(n: usize) -> Vec<ImageFile> {
    (0..n)
        .map(|i| ImageFile::new(format!("images/img_{:03}.jpg", i), true).unwrap())
        .collect()
}

/// Answers every request that is waiting, as a worker would, with an
/// 800x600 image; returns the indices it answered.
fn serve(port: &WorkerPort) -> Vec<usize> {
    let mut served = Vec::new();
    loop {
        match port.poll() {
            WorkerStep::Decode(req) => {
                let img = solid(800, 600, [10, 20, 30, 255]);
                served.push(req.lookup.index);
                assert!(port.deliver(port.decode(req.lookup, 800, 600, img)));
            }
            WorkerStep::Wait | WorkerStep::Stop => return served,
        }
    }
}

fn count_requests(port: &WorkerPort) -> usize {
    let mut n = 0;
    while let WorkerStep::Decode(_) = port.poll() {
        n += 1;
    }
    n
}

fn size(width: u32, height: u32) -> TargetSize {
    TargetSize { width, height }
}

#[test]
fn end_to_end_hundred_images() {
    let files = image_list(100);
    let (mut cache, port) = ImageCache::with_workers(size(500, 500), 4);
    let mut rounds = 0;
    loop {
        if let Some(img) = cache.get(ImageLookup { index: 0 }, &files) {
            let (w, h) = img.image().size_usize();
            assert!(w <= 500 && h <= 500);
            assert_eq!((w, h), (500, 375));
            assert_eq!(img.average(), Rgba { r: 10, g: 20, b: 30, a: 255 });
            break;
        }
        serve(&port);
        rounds += 1;
        assert!(rounds < 10);
    }
    assert!(cache.get(ImageLookup { index: 99 }, &files).is_none());
    assert!(cache.get(ImageLookup { index: 1 }, &files).is_some());
    assert!(cache.get(ImageLookup { index: 2 }, &files).is_some());
}

#[test]
fn repeated_get_eventually_ready() {
    let files = image_list(10);
    let (mut cache, port) = ImageCache::with_workers(size(64, 64), 2);
    assert!(cache.get(ImageLookup { index: 5 }, &files).is_none());
    assert!(cache.is_pending(5));
    assert!(cache.get(ImageLookup { index: 5 }, &files).is_none());
    assert_eq!(serve(&port), vec![5, 6]);
    assert!(cache.get(ImageLookup { index: 5 }, &files).is_some());
    assert!(!cache.is_pending(5));
}

#[test]
fn cached_and_pending_never_overlap() {
    let files = image_list(40);
    let (mut cache, port) = ImageCache::with_workers(size(32, 32), 4);
    let mut state: u64 = 12345;
    for _ in 0..200 {
        state = state.wrapping_mul(6364136223846793005).wrapping_add(1442695040888963407);
        let index = ((state >> 33) % 45) as usize;
        if (state >> 20) % 3 == 0 {
            serve(&port);
        } else {
            let _ = cache.get(ImageLookup { index }, &files);
        }
        for k in 0..45 {
            assert!(!(cache.is_cached(k) && cache.is_pending(k)));
        }
    }
}

#[test]
fn resize_clears_cache() {
    let files = image_list(10);
    let (mut cache, port) = ImageCache::with_workers(size(100, 100), 2);
    let _ = cache.get(ImageLookup { index: 3 }, &files);
    serve(&port);
    assert!(cache.get(ImageLookup { index: 3 }, &files).is_some());
    assert!(!cache.set_size(size(100, 100)));
    assert!(cache.is_cached(3));
    assert!(cache.set_size(size(50, 40)));
    assert_eq!(cache.cached_len(), 0);
    assert_eq!(port.target_size(), size(50, 40));
    assert!(cache.get(ImageLookup { index: 3 }, &files).is_none());
    serve(&port);
    let img = cache.get(ImageLookup { index: 3 }, &files).unwrap();
    assert_eq!(img.size(), size(50, 40));
    assert_eq!(img.image().size_usize(), (50, 38));
}

#[test]
fn stale_result_after_resize_is_dropped() {
    let files = image_list(10);
    let (mut cache, port) = ImageCache::with_workers(size(100, 100), 2);
    let _ = cache.get(ImageLookup { index: 0 }, &files);
    let req = match port.poll() {
        WorkerStep::Decode(req) => req,
        _ => panic!("expected a request"),
    };
    let old = port.decode(req.lookup, 8, 8, solid(8, 8, [1, 2, 3, 4]));
    assert!(cache.set_size(size(4, 4)));
    cache.receive(old);
    assert!(!cache.is_cached(0));
    assert!(!cache.is_pending(0));
}

#[test]
fn eviction_keeps_radius_around_current() {
    let files = image_list(300);
    let (mut cache, port) = ImageCache::with_workers(size(4, 4), 200);
    assert!(cache.get(ImageLookup { index: 0 }, &files).is_none());
    assert_eq!(serve(&port).len(), 101);
    assert!(cache.get(ImageLookup { index: 0 }, &files).is_some());
    assert_eq!(cache.cached_len(), 26);
    assert!(cache.is_cached(25));
    assert!(!cache.is_cached(26));
    assert!(cache.is_pending(26) && cache.is_pending(100));
}

#[test]
fn current_index_survives_eviction() {
    let files = image_list(300);
    let (mut cache, port) = ImageCache::with_workers(size(4, 4), 200);
    let _ = cache.get(ImageLookup { index: 100 }, &files);
    serve(&port);
    for _ in 0..10 {
        assert!(cache.get(ImageLookup { index: 100 }, &files).is_some());
        assert!(cache.is_cached(100));
        for k in 0..300 {
            if cache.is_cached(k) {
                assert!((75..=125).contains(&k));
            }
        }
        serve(&port);
    }
}

#[test]
fn prefetch_sends_window_once() {
    let files = image_list(100);
    let (mut cache, port) = ImageCache::with_workers(size(16, 16), 4);
    assert!(cache.get(ImageLookup { index: 10 }, &files).is_none());
    assert_eq!(cache.pending_len(), 3);
    assert!(cache.is_pending(10) && cache.is_pending(11) && cache.is_pending(12));
    assert!(cache.get(ImageLookup { index: 10 }, &files).is_none());
    assert_eq!(cache.pending_len(), 3);
    assert_eq!(count_requests(&port), 3);
    assert_eq!(count_requests(&port), 0);
}

#[test]
fn out_of_range_index_never_loads() {
    let files = image_list(100);
    let (mut cache, port) = ImageCache::with_workers(size(16, 16), 4);
    for _ in 0..50 {
        assert!(cache.get(ImageLookup { index: 1000 }, &files).is_none());
        assert_eq!(cache.pending_len(), 0);
        assert!(serve(&port).is_empty());
    }
    assert!(cache.get(ImageLookup { index: 99 }, &files).is_none());
    assert_eq!(cache.pending_len(), 1);
    assert_eq!(serve(&port), vec![99]);
}

#[test]
fn failed_decode_frees_index() {
    let files = image_list(5);
    let (mut cache, port) = ImageCache::with_workers(size(16, 16), 2);
    let _ = cache.get(ImageLookup { index: 2 }, &files);
    while let WorkerStep::Decode(req) = port.poll() {
        let failed = DecodeResult::Failed(req.lookup, ImageParseError::ImageError("bad".to_string()));
        assert!(port.deliver(failed));
    }
    assert!(cache.get(ImageLookup { index: 2 }, &files).is_none());
    assert!(cache.is_pending(2));
    assert_eq!(serve(&port), vec![2, 3]);
    assert!(cache.get(ImageLookup { index: 2 }, &files).is_some());
}

#[test]
fn request_carries_path() {
    let files = image_list(5);
    let (mut cache, port) = ImageCache::with_workers(size(16, 16), 1);
    let _ = cache.get(ImageLookup { index: 4 }, &files);
    match port.poll() {
        WorkerStep::Decode(req) => {
            assert_eq!(req.lookup, ImageLookup { index: 4 });
            assert_eq!(req.path, "images/img_004.jpg");
        }
        _ => panic!("expected a request"),
    }
}

#[test]
fn worker_stops_when_cache_dropped() {
    let (cache, port) = ImageCache::with_workers(size(16, 16), 2);
    assert!(matches!(port.poll(), WorkerStep::Wait));
    drop(cache);
    assert!(matches!(port.poll(), WorkerStep::Stop));
}

#[test]
fn new_uses_at_least_one_worker() {
    let (cache, port) = ImageCache::new(size(20, 10));
    assert!(cache.worker_count() >= 1);
    assert_eq!(cache.target_size(), size(20, 10));
    assert_eq!(port.target_size(), size(20, 10));
    let other = port.clone();
    assert_eq!(other.target_size(), size(20, 10));
}

#[test]
fn decode_scales_to_fit() {
    let img = solid(100, 50, [200, 0, 0, 255]);
    match decode_image(ImageLookup { index: 7 }, 100, 50, img, size(40, 40)) {
        DecodeResult::Decoded(lookup, cached) => {
            assert_eq!(lookup.index, 7);
            assert_eq!(cached.image().size_usize(), (40, 20));
            assert_eq!(cached.image().pixels().len(), 800);
            assert_eq!(cached.average(), Rgba { r: 200, g: 0, b: 0, a: 255 });
        }
        DecodeResult::Failed(..) => panic!("expected a decoded image"),
    }
}

#[test]
fn decode_zero_target_gives_one_pixel() {
    let img = solid(30, 30, [1, 2, 3, 4]);
    match decode_image(ImageLookup { index: 0 }, 30, 30, img, size(0, 0)) {
        DecodeResult::Decoded(_, cached) => {
            let (w, h) = cached.image().size_usize();
            assert!(w <= 1 && h <= 1);
        }
        DecodeResult::Failed(..) => panic!("expected a decoded image"),
    }
}

#[test]
fn decode_huge_target_fails() {
    let img = solid(2, 2, [1, 2, 3, 4]);
    match decode_image(ImageLookup { index: 3 }, 2, 2, img, size(u32::MAX, u32::MAX)) {
        DecodeResult::Failed(lookup, ImageParseError::TooLarge) => assert_eq!(lookup.index, 3),
        _ => panic!("expected TooLarge"),
    }
}

#[test]
fn decode_keeps_pixels_when_scaling_up() {
    let img = vec![255, 0, 0, 255, 0, 0, 255, 255];
    match decode_image(ImageLookup { index: 1 }, 2, 1, img, size(4, 2)) {
        DecodeResult::Decoded(_, cached) => {
            let red = Rgba { r: 255, g: 0, b: 0, a: 255 };
            let blue = Rgba { r: 0, g: 0, b: 255, a: 255 };
            assert_eq!(cached.image().size_usize(), (4, 2));
            assert_eq!(cached.image().pixels(), &vec![red, red, blue, blue, red, red, blue, blue]);
            assert_eq!(cached.average(), Rgba { r: 127, g: 0, b: 127, a: 255 });
        }
        DecodeResult::Failed(..) => panic!("expected a decoded image"),
    }
}

#[test]
fn refused_offer_leaves_index_free() {
    let files = image_list(20);
    let (mut cache, port) = ImageCache::with_workers(size(16, 16), 2);
    let _ = cache.get(ImageLookup { index: 0 }, &files);
    assert!(cache.is_pending(0) && cache.is_pending(1));
    let _ = cache.get(ImageLookup { index: 5 }, &files);
    assert!(!cache.is_pending(5) && !cache.is_pending(6));
    assert_eq!(count_requests(&port), 2);
    let _ = cache.get(ImageLookup { index: 5 }, &files);
    assert!(cache.is_pending(5) && cache.is_pending(6));
    assert_eq!(serve(&port), vec![5, 6]);
}

#[test]
fn worker_step_follows_poll() {
    let req = DecodeRequest { lookup: ImageLookup { index: 3 }, path: "a.jpg".to_string() };
    match next_step(Polled::Message(req)) {
        WorkerStep::Decode(r) => {
            assert_eq!(r.lookup.index, 3);
            assert_eq!(r.path, "a.jpg");
        }
        _ => panic!("expected Decode"),
    }
    assert!(matches!(next_step(Polled::Empty), WorkerStep::Wait));
    assert!(matches!(next_step(Polled::Disconnected), WorkerStep::Stop));
}
