use chartview::chart::{SourceError, Transform};
use chartview::geom::{Coord, Pos, Size};

fn ok_proj() -> String {
    "+proj=lcc +lat_1=33 +lat_2=45 +datum=NAD83 +units=m +no_defs".to_string()
}

fn make(px: Size, proj: String) -> Result<Transform, SourceError> {
    Transform::new(px, proj, 5_000_000, 9_000_000, 42_000, -42_000)
}

#[test]
fn construction_succeeds_for_valid_projection() {
    let t = make(Size { w: 1000, h: 1000 }, ok_proj());
    assert!(t.is_ok());
}

#[test]
fn construction_is_case_insensitive() {
    let t = make(Size { w: 10, h: 10 }, "+PROJ=LCC +DATUM=nad83 +UNITS=M".to_string());
    assert!(t.is_ok());
}

#[test]
fn wrong_projection_kind_is_rejected() {
    let t = make(Size { w: 1000, h: 1000 }, "+proj=merc +datum=NAD83 +units=m".to_string());
    assert!(matches!(t, Err(SourceError::InvalidSpatialReference)));
}

#[test]
fn wrong_datum_is_rejected() {
    let t = make(Size { w: 1000, h: 1000 }, "+proj=lcc +datum=WGS84 +units=m".to_string());
    assert!(matches!(t, Err(SourceError::InvalidSpatialReference)));
}

#[test]
fn wrong_unit_is_rejected() {
    let t = make(Size { w: 1000, h: 1000 }, "+proj=lcc +datum=NAD83 +units=ft".to_string());
    assert!(matches!(t, Err(SourceError::InvalidSpatialReference)));
}

#[test]
fn non_positive_pixel_size_is_rejected() {
    let t = make(Size { w: 0, h: 1000 }, ok_proj());
    assert!(matches!(t, Err(SourceError::InvalidPixelSize)));
    let t = make(Size { w: 1000, h: -3 }, ok_proj());
    assert!(matches!(t, Err(SourceError::InvalidPixelSize)));
}

#[test]
fn spatial_reference_is_checked_before_pixel_size() {
    let t = make(Size { w: 0, h: 0 }, "+proj=merc".to_string());
    assert!(matches!(t, Err(SourceError::InvalidSpatialReference)));
}

#[test]
fn px_to_chart_applies_the_linear_terms() {
    let t = make(Size { w: 1000, h: 1000 }, ok_proj()).unwrap();
    let c = t.px_to_chart(Pos { x: 10, y: 20 });
    assert_eq!(c, Coord { x: 5_000_000 + 420_000, y: 9_000_000 - 840_000 });
}

#[test]
fn round_trip_returns_the_pixel_exactly() {
    let t = make(Size { w: 1000, h: 1000 }, ok_proj()).unwrap();
    for &(x, y) in &[(0i64, 0i64), (1, 1), (10, 20), (999, 999), (123, 877)] {
        let p = Pos { x, y };
        let c = t.px_to_chart(p);
        assert_eq!(t.chart_to_px(c), p);
    }
}

#[test]
fn chart_to_px_rounds_down_between_pixels() {
    let t = make(Size { w: 1000, h: 1000 }, ok_proj()).unwrap();
    // One millimeter into pixel column 10 still lands in column 10.
    let c = Coord { x: 5_000_000 + 420_000 + 1, y: 9_000_000 - 840_000 };
    let p = t.chart_to_px(c);
    assert_eq!(p.x, 10);
}

#[test]
fn px_to_dist_uses_the_y_scale() {
    let t = make(Size { w: 1000, h: 1000 }, ok_proj()).unwrap();
    assert_eq!(t.px_to_dist(10), -420_000);
}

#[test]
fn get_proj4_returns_the_stored_definition() {
    let t = make(Size { w: 1000, h: 1000 }, ok_proj()).unwrap();
    assert_eq!(t.get_proj4(), ok_proj());
}

#[test]
fn px_size_reports_the_chart_size() {
    let t = make(Size { w: 640, h: 480 }, ok_proj()).unwrap();
    assert_eq!(t.px_size(), Size { w: 640, h: 480 });
}
