use chartview::chart::{BandInfo, ColorEntry, ImagePart, Reply, Source, SourceError};
use chartview::geom::{Pos, Rect, Size};

fn ok_proj() -> String {
    "+proj=lcc +datum=NAD83 +units=m".to_string()
}

fn gray_table() -> Vec<ColorEntry> {
    let mut t = Vec::new();
    for i in 0..256i16 {
        t.push(ColorEntry { r: i, g: i, b: i, a: 255 });
    }
    t
}

fn open_source() -> Source {
    let bands = vec![
        BandInfo { palette_index: false, color_table: None },
        BandInfo { palette_index: true, color_table: Some(gray_table()) },
    ];
    Source::open(Size { w: 1000, h: 1000 }, ok_proj(), 0, 0, 1000, -1000, bands).unwrap()
}

fn part(x: i64, zoom: u32) -> ImagePart {
    ImagePart::new(
        Rect { pos: Pos { x, y: 0 }, size: Size { w: 2, h: 2 } },
        zoom,
        false,
    )
}

#[test]
fn open_without_palette_band_fails() {
    let bands = vec![BandInfo { palette_index: false, color_table: Some(gray_table()) }];
    let r = Source::open(Size { w: 10, h: 10 }, ok_proj(), 0, 0, 1000, -1000, bands);
    assert!(matches!(r, Err(SourceError::RasterNotFound)));
}

#[test]
fn open_without_color_table_fails() {
    let bands = vec![BandInfo { palette_index: true, color_table: None }];
    let r = Source::open(Size { w: 10, h: 10 }, ok_proj(), 0, 0, 1000, -1000, bands);
    assert!(matches!(r, Err(SourceError::PaletteNotFound)));
}

#[test]
fn open_with_short_color_table_fails() {
    let mut t = gray_table();
    t.pop();
    let bands = vec![BandInfo { palette_index: true, color_table: Some(t) }];
    let r = Source::open(Size { w: 10, h: 10 }, ok_proj(), 0, 0, 1000, -1000, bands);
    assert!(matches!(r, Err(SourceError::InvalidPalette)));
}

#[test]
fn open_with_out_of_range_color_fails() {
    let mut t = gray_table();
    t[7] = ColorEntry { r: 256, g: 0, b: 0, a: 255 };
    let bands = vec![BandInfo { palette_index: true, color_table: Some(t) }];
    let r = Source::open(Size { w: 10, h: 10 }, ok_proj(), 0, 0, 1000, -1000, bands);
    assert!(matches!(r, Err(SourceError::InvalidPalette)));
}

#[test]
fn coalescing_cancels_all_but_the_most_recent() {
    let mut s = open_source();
    let r1 = part(1, 1_000_000);
    let r2 = part(2, 1_000_000);
    let r3 = part(3, 1_000_000);
    s.read_image(r1);
    s.read_image(r2);
    s.read_image(r3);
    let work = s.drain();
    assert_eq!(work, Some(r3));
    match s.get_next_reply() {
        Some(Reply::Canceled(p)) => assert_eq!(p, r1),
        other => panic!("expected Canceled(r1), got {other:?}"),
    }
    match s.get_next_reply() {
        Some(Reply::Canceled(p)) => assert_eq!(p, r2),
        other => panic!("expected Canceled(r2), got {other:?}"),
    }
    assert!(s.get_next_reply().is_none());
    // Completing the winner yields exactly one image reply.
    s.complete(r3, Ok(vec![0u8, 1, 2, 3]));
    match s.get_next_reply() {
        Some(Reply::Image(p, img)) => {
            assert_eq!(p, r3);
            assert_eq!(img.pixels.len(), 4);
        },
        other => panic!("expected Image(r3), got {other:?}"),
    }
    assert!(s.get_next_reply().is_none());
}

#[test]
fn single_request_is_not_canceled() {
    let mut s = open_source();
    let r1 = part(1, 500_000);
    s.read_image(r1);
    assert_eq!(s.drain(), Some(r1));
    assert!(s.get_next_reply().is_none());
}

#[test]
fn decode_failure_reports_the_backend_message() {
    let mut s = open_source();
    let r1 = part(1, 1_000_000);
    s.read_image(r1);
    let work = s.drain().unwrap();
    s.complete(work, Err("read beyond extent".to_string()));
    match s.get_next_reply() {
        Some(Reply::DecodeError(p, msg)) => {
            assert_eq!(p, r1);
            assert_eq!(msg, "read beyond extent");
        },
        other => panic!("expected DecodeError, got {other:?}"),
    }
}

#[test]
fn day_and_night_palettes_map_pixels() {
    let mut s = open_source();
    let day = part(1, 1_000_000);
    s.read_image(day);
    let w = s.drain().unwrap();
    s.complete(w, Ok(vec![7u8, 8, 9, 10]));
    match s.get_next_reply() {
        Some(Reply::Image(_, img)) => {
            let px = img.pixels[0];
            assert_eq!((px.r, px.g, px.b, px.a), (7, 7, 7, 255));
        },
        other => panic!("expected Image, got {other:?}"),
    }
    let night = ImagePart::new(
        Rect { pos: Pos { x: 1, y: 0 }, size: Size { w: 2, h: 2 } },
        1_000_000,
        true,
    );
    s.read_image(night);
    let w = s.drain().unwrap();
    s.complete(w, Ok(vec![7u8, 8, 9, 10]));
    match s.get_next_reply() {
        Some(Reply::Image(_, img)) => {
            let px = img.pixels[0];
            assert_eq!((px.r, px.g, px.b, px.a), (248, 248, 248, 255));
        },
        other => panic!("expected Image, got {other:?}"),
    }
}

#[test]
fn exit_stops_all_further_replies() {
    let mut s = open_source();
    s.close();
    assert_eq!(s.drain(), None);
    assert!(s.get_next_reply().is_none());
    // Nothing submitted or completed afterwards produces a reply.
    let r = part(1, 1_000_000);
    s.read_image(r);
    assert_eq!(s.drain(), None);
    s.complete(r, Ok(vec![0u8, 0, 0, 0]));
    assert!(s.get_next_reply().is_none());
}

#[test]
fn exit_in_the_middle_drops_the_backlog() {
    let mut s = open_source();
    let r1 = part(1, 1_000_000);
    let r2 = part(2, 1_000_000);
    let r3 = part(3, 1_000_000);
    s.read_image(r1);
    s.read_image(r2);
    s.close();
    s.read_image(r3);
    // r1 is superseded by r2 before the exit is seen; r2 and r3 vanish
    // with the worker.
    assert_eq!(s.drain(), None);
    match s.get_next_reply() {
        Some(Reply::Canceled(p)) => assert_eq!(p, r1),
        other => panic!("expected Canceled(r1), got {other:?}"),
    }
    assert!(s.get_next_reply().is_none());
}

#[test]
fn source_rect_scales_by_the_inverse_zoom() {
    let p = ImagePart::new(
        Rect { pos: Pos { x: 100, y: 200 }, size: Size { w: 50, h: 60 } },
        500_000,
        false,
    );
    let src = p.source_rect();
    assert_eq!(src, Rect { pos: Pos { x: 200, y: 400 }, size: Size { w: 100, h: 120 } });
}

#[test]
fn image_parts_compare_bit_exactly() {
    let a = part(1, 500_000);
    let b = part(1, 500_000);
    let c = part(1, 500_001);
    assert_eq!(a, b);
    assert_ne!(a, c);
    let d = ImagePart::new(a.rect, a.zoom, true);
    assert_ne!(a, d);
}
