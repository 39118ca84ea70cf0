use chartview::geom::{Pos, Rect, Size};
use chartview::viewport::Viewport;

fn vp_1000(disp_w: i64, disp_h: i64) -> Viewport {
    let mut v = Viewport::new(Size { w: 1000, h: 1000 });
    v.set_disp_rect(Rect { pos: Pos { x: 0, y: 0 }, size: Size { w: disp_w, h: disp_h } });
    v
}

#[test]
fn min_zoom_is_the_larger_fit_ratio() {
    let v = vp_1000(500, 250);
    assert_eq!(v.get_min_zoom(), 500_000);
}

#[test]
fn min_zoom_follows_the_fit_ratio_for_small_viewports() {
    let v = vp_1000(10, 10);
    assert_eq!(v.get_min_zoom(), 10_000);
}

#[test]
fn a_large_chart_can_zoom_out_until_it_fits() {
    let mut v = Viewport::new(Size { w: 12_000, h: 12_000 });
    v.set_disp_rect(Rect {
        pos: Pos { x: 0, y: 0 },
        size: Size { w: 1000, h: 1000 },
    });
    assert_eq!(v.get_min_zoom(), 83_334);
}

#[test]
fn an_empty_viewport_floors_at_one_millionth() {
    let v = Viewport::new(Size { w: 1000, h: 1000 });
    assert_eq!(v.get_min_zoom(), 1);
}

#[test]
fn min_zoom_is_capped_at_full_resolution() {
    let v = vp_1000(4000, 4000);
    assert_eq!(v.get_min_zoom(), 1_000_000);
}

#[test]
fn zoom_request_below_minimum_clamps_up() {
    let mut v = vp_1000(500, 250);
    // A gesture asking for 0.1 of the current 1.0 zoom clamps to 0.5.
    v.apply_zoom(100_000, Pos { x: 0, y: 0 });
    assert_eq!(v.get_zoom(), 500_000);
}

#[test]
fn zoom_request_above_full_clamps_down() {
    let mut v = vp_1000(500, 250);
    v.apply_zoom(100_000, Pos { x: 0, y: 0 });
    assert_eq!(v.get_zoom(), 500_000);
    // Asking for 4x of 0.5 clamps to 1.0.
    v.apply_zoom(4_000_000, Pos { x: 0, y: 0 });
    assert_eq!(v.get_zoom(), 1_000_000);
}

#[test]
fn anchored_zoom_keeps_the_cursor_point_stable() {
    let mut v = vp_1000(500, 250);
    v.set_disp_rect(Rect {
        pos: Pos { x: 200, y: 200 },
        size: Size { w: 500, h: 250 },
    });
    v.take_scroll();
    // Halving the zoom with anchor (100,100) and scroll (200,200) gives
    // (200+100)*0.5-100 = 50 on each axis.
    v.apply_zoom(500_000, Pos { x: 100, y: 100 });
    assert_eq!(v.get_zoom(), 500_000);
    assert_eq!(v.take_scroll(), Some(Pos { x: 50, y: 50 }));
}

#[test]
fn unchanged_zoom_leaves_the_scroll_alone() {
    let mut v = vp_1000(500, 250);
    v.take_scroll();
    v.apply_zoom(1_000_000, Pos { x: 10, y: 10 });
    assert_eq!(v.get_zoom(), 1_000_000);
    assert_eq!(v.take_scroll(), None);
}

#[test]
fn zoom_out_step_anchors_at_the_viewport_center() {
    let mut v = vp_1000(500, 250);
    v.set_disp_rect(Rect {
        pos: Pos { x: 200, y: 200 },
        size: Size { w: 500, h: 250 },
    });
    v.zoom_out_step();
    assert_eq!(v.get_zoom(), 800_000);
    // Anchors are half the viewport: (250,125).
    // x: (200+250)*0.8-250 = 110; y: (200+125)*0.8-125 = 135.
    assert_eq!(v.take_scroll(), Some(Pos { x: 110, y: 135 }));
}

#[test]
fn zoom_in_step_stops_at_full_resolution() {
    let mut v = vp_1000(500, 250);
    v.zoom_in_step();
    assert_eq!(v.get_zoom(), 1_000_000);
    v.zoom_out_step();
    v.zoom_in_step();
    assert_eq!(v.get_zoom(), 1_000_000);
}

#[test]
fn a_new_frame_requests_the_visible_rectangle() {
    let mut v = vp_1000(500, 250);
    v.set_disp_rect(Rect {
        pos: Pos { x: 40, y: 60 },
        size: Size { w: 500, h: 250 },
    });
    assert!(v.needs_request(None, false));
    let want = v.desired_part(false);
    assert_eq!(want.rect.pos, Pos { x: 40, y: 60 });
    assert_eq!(want.zoom, 1_000_000);
    assert!(!want.dark);
    assert!(!v.needs_request(Some(&want), false));
    // A different color mode calls for a new request.
    assert!(v.needs_request(Some(&want), true));
}

#[test]
fn scroll_is_pinned_to_the_origin() {
    let mut v = vp_1000(500, 250);
    v.set_scroll(Pos { x: -5, y: 7 });
    assert_eq!(v.take_scroll(), Some(Pos { x: 0, y: 7 }));
    assert_eq!(v.take_scroll(), None);
}

#[test]
fn goto_centers_the_target_at_full_zoom() {
    let mut v = vp_1000(500, 250);
    v.zoom_out_step();
    v.goto_px(Pos { x: 600, y: 400 });
    assert_eq!(v.get_zoom(), 1_000_000);
    assert_eq!(v.take_scroll(), Some(Pos { x: 600 - 250, y: 400 - 125 }));
}

#[test]
fn panel_toggle_shifts_the_scroll() {
    let mut v = vp_1000(500, 250);
    v.set_disp_rect(Rect {
        pos: Pos { x: 300, y: 40 },
        size: Size { w: 500, h: 250 },
    });
    v.panel_shift(false, 99);
    assert_eq!(v.take_scroll(), Some(Pos { x: 200, y: 40 }));
    v.panel_shift(true, 99);
    assert_eq!(v.take_scroll(), Some(Pos { x: 400, y: 40 }));
}

#[test]
fn enforce_min_zoom_raises_a_too_small_zoom() {
    let mut v = vp_1000(100, 100);
    // Zoom out to the fit ratio of the small viewport.
    for _ in 0..12 {
        v.zoom_out_step();
    }
    assert_eq!(v.get_zoom(), 100_000);
    // A bigger viewport now demands at least 1/2.
    v.set_disp_rect(Rect {
        pos: Pos { x: 0, y: 0 },
        size: Size { w: 500, h: 250 },
    });
    assert!(v.enforce_min_zoom());
    assert_eq!(v.get_zoom(), 500_000);
    assert!(!v.enforce_min_zoom());
}

#[test]
fn a_click_maps_through_scroll_and_zoom_to_a_chart_pixel() {
    let mut v = vp_1000(500, 250);
    v.set_disp_rect(Rect {
        pos: Pos { x: 100, y: 40 },
        size: Size { w: 500, h: 250 },
    });
    // At full zoom the chart pixel is click plus scroll.
    assert_eq!(v.click_to_px(Pos { x: 250, y: 125 }), Pos { x: 350, y: 165 });
    // At half zoom the same click lands twice as deep into the chart.
    v.apply_zoom(500_000, Pos { x: 0, y: 0 });
    if let Some(scroll) = v.take_scroll() {
        v.set_disp_rect(Rect { pos: scroll, size: Size { w: 500, h: 250 } });
    }
    assert_eq!(v.get_zoom(), 500_000);
    assert_eq!(v.click_to_px(Pos { x: 250, y: 125 }), Pos { x: (250 + 50) * 2, y: (125 + 20) * 2 });
}

#[test]
fn the_search_radius_grows_as_the_view_zooms_out() {
    let mut v = vp_1000(500, 250);
    assert_eq!(v.search_radius(), 926_000);
    v.apply_zoom(500_000, Pos { x: 0, y: 0 });
    assert_eq!(v.search_radius(), 1_852_000);
}
