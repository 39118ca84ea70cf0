//! Viewport controller: zoom clamping, scroll bookkeeping, and the
//! decision when a new tile request is due.
//!
//! The controller owns the current zoom (millionths, clamped between the
//! fit-to-view minimum and 1.0), the display rectangle reported by the UI
//! scroll area, and a pending scroll value used once to seed the next
//! frame.  Zoom changes keep the point under the cursor or pinch center
//! stable by recomputing the scroll offset.

use vstd::prelude::*;

use crate::chart::ImagePart;
use crate::geom::{ceil_div_u64, Pos, Rect, Size, MAX_DIM, ZOOM_SCALE};

verus! {

/// Upper bound on scroll offsets the controller stores; far beyond any
/// chart's pixel extent.
pub const MAX_SCROLL: i64 = 268_435_456;

/// The nearby-search radius at full zoom: half a nautical mile, in
/// projected millimeters.
pub const SEARCH_RADIUS_MM: i64 = 926_000;

/// The minimum zoom for a chart of size `chart` shown in a viewport of
/// size `disp`: the larger of the two fit-to-view ratios, so that the
/// chart still fills the viewport in at least one axis.  It never exceeds
/// 1.0, and never drops below one millionth — the smallest positive zoom
/// the fixed-point representation holds.
pub open spec fn spec_min_zoom(chart: Size, disp: Size) -> int {
    let sw = (disp.w * ZOOM_SCALE + chart.w - 1) / (chart.w as int);
    let sh = (disp.h * ZOOM_SCALE + chart.h - 1) / (chart.h as int);
    let m = if sw >= sh {
        sw
    } else {
        sh
    };
    let m2 = if m >= 1 {
        m
    } else {
        1
    };
    if m2 <= ZOOM_SCALE {
        m2
    } else {
        ZOOM_SCALE as int
    }
}

/// A zoom value clamped into `[lo, ZOOM_SCALE]`.
pub open spec fn spec_clamp_zoom(z: int, lo: int) -> int {
    if z < lo {
        lo
    } else if z > ZOOM_SCALE {
        ZOOM_SCALE as int
    } else {
        z
    }
}

/// The scroll offset that keeps the chart point under `anchor` fixed when
/// the zoom changes from `old_zoom` to `new_zoom`, pinned at the origin:
/// `(scroll + anchor) * new_zoom / old_zoom - anchor`, not below zero.
pub open spec fn spec_zoom_scroll(scroll: int, anchor: int, new_zoom: int, old_zoom: int) -> int {
    let raw = (scroll + anchor) * new_zoom / old_zoom - anchor;
    if raw >= 0 {
        raw
    } else {
        0
    }
}

/// A scroll value pinned into the range the controller stores.
pub open spec fn spec_pin_scroll(v: int) -> int {
    if v < 0 {
        0
    } else if v > MAX_SCROLL {
        MAX_SCROLL as int
    } else {
        v
    }
}

/// One axis of the anchor-stable scroll computation.
fn zoom_scroll(scroll: i64, anchor: i64, new_zoom: u32, old_zoom: u32) -> (r: i64)
    requires
        0 <= scroll <= MAX_SCROLL,
        0 <= anchor <= MAX_DIM,
        1 <= new_zoom <= ZOOM_SCALE,
        1 <= old_zoom <= ZOOM_SCALE,
    ensures
        r == spec_zoom_scroll(scroll as int, anchor as int, new_zoom as int, old_zoom as int),
        0 <= r,
{
    let sum: u64 = (scroll as u64) + (anchor as u64);
    proof {
        assert(sum * new_zoom <= (MAX_SCROLL + MAX_DIM) * (ZOOM_SCALE as int))
            by (nonlinear_arith)
            requires
                0 <= sum <= MAX_SCROLL + MAX_DIM,
                0 <= new_zoom <= ZOOM_SCALE,
        ;
    }
    let scaled: u64 = (sum * (new_zoom as u64)) / (old_zoom as u64);
    proof {
        vstd::arithmetic::div_mod::lemma_div_is_ordered_by_denominator(
            sum as int * new_zoom as int,
            1,
            old_zoom as int,
        );
        vstd::arithmetic::div_mod::lemma_div_basics(sum as int * new_zoom as int);
    }
    if scaled >= (anchor as u64) {
        (scaled - (anchor as u64)) as i64
    } else {
        0
    }
}

/// One display-pixel quantity scaled by the inverse of the zoom factor.
fn inv_zoom(v: i64, zoom: u32) -> (r: i64)
    requires
        1 <= zoom <= ZOOM_SCALE,
        0 <= v <= MAX_DIM + MAX_SCROLL,
    ensures
        r == v * ZOOM_SCALE / zoom as int,
{
    proof {
        assert(v * ZOOM_SCALE <= (MAX_DIM + MAX_SCROLL) * (ZOOM_SCALE as int))
            by (nonlinear_arith)
            requires
                0 <= v <= MAX_DIM + MAX_SCROLL,
        ;
        vstd::arithmetic::div_mod::lemma_div_is_ordered_by_denominator(
            v as int * ZOOM_SCALE as int,
            1,
            zoom as int,
        );
        vstd::arithmetic::div_mod::lemma_div_basics(v as int * ZOOM_SCALE as int);
    }
    (((v as u64) * (ZOOM_SCALE as u64)) / (zoom as u64)) as i64
}

/// One axis of the scroll-pinning step.
fn pin_scroll(v: i64) -> (r: i64)
    ensures
        r == spec_pin_scroll(v as int),
{
    if v < 0 {
        0
    } else if v > MAX_SCROLL {
        MAX_SCROLL
    } else {
        v
    }
}

/// Viewport state for one open chart.
pub struct Viewport {
    chart_size: Size,
    disp_rect: Rect,
    scroll: Option<Pos>,
    zoom: u32,
}

impl Viewport {
    /// The chart's full pixel size.
    pub closed spec fn spec_chart_size(self) -> Size {
        self.chart_size
    }

    /// The display rectangle: scroll offset and viewport size.
    pub closed spec fn spec_disp_rect(self) -> Rect {
        self.disp_rect
    }

    /// The pending scroll value, used once to seed the next frame.
    pub closed spec fn spec_scroll(self) -> Option<Pos> {
        self.scroll
    }

    /// The current zoom in millionths.
    pub closed spec fn spec_zoom(self) -> u32 {
        self.zoom
    }

    /// The invariant every viewport satisfies.
    pub closed spec fn wf(self) -> bool {
        &&& self.chart_size.spec_is_valid()
        &&& 0 <= self.disp_rect.pos.x <= MAX_SCROLL
        &&& 0 <= self.disp_rect.pos.y <= MAX_SCROLL
        &&& 0 <= self.disp_rect.size.w <= MAX_DIM
        &&& 0 <= self.disp_rect.size.h <= MAX_DIM
        &&& 1 <= self.zoom <= ZOOM_SCALE
        &&& (self.scroll matches Some(p) ==> 0 <= p.x <= MAX_SCROLL && 0 <= p.y <= MAX_SCROLL)
    }

    /// The request the current frame calls for: the visible rectangle at
    /// the clamped zoom, with the given color-mode flag.
    pub open spec fn spec_desired_part(self, night: bool) -> ImagePart {
        ImagePart {
            rect: self.spec_disp_rect(),
            zoom: (if self.spec_zoom() >= spec_min_zoom(
                self.spec_chart_size(),
                self.spec_disp_rect().size,
            ) {
                self.spec_zoom() as int
            } else {
                spec_min_zoom(self.spec_chart_size(), self.spec_disp_rect().size)
            }) as u32,
            dark: night,
        }
    }

    /// A fresh viewport for a newly opened chart: full zoom, scrolled to
    /// the origin on the first frame.
    pub fn new(chart_size: Size) -> (r: Viewport)
        requires
            chart_size.spec_is_valid(),
        ensures
            r.wf(),
            r.spec_chart_size() == chart_size,
            r.spec_zoom() == ZOOM_SCALE,
            r.spec_scroll() == Some(Pos { x: 0int as i64, y: 0int as i64 }),
            r.spec_disp_rect() == (Rect {
                pos: Pos { x: 0int as i64, y: 0int as i64 },
                size: Size { w: 0int as i64, h: 0int as i64 },
            }),
    {
        Viewport {
            chart_size,
            disp_rect: Rect { pos: Pos { x: 0, y: 0 }, size: Size { w: 0, h: 0 } },
            scroll: Some(Pos { x: 0, y: 0 }),
            zoom: ZOOM_SCALE,
        }
    }

    /// The current zoom in millionths.
    pub fn get_zoom(&self) -> (r: u32)
        ensures
            r == self.spec_zoom(),
    {
        self.zoom
    }

    /// The display rectangle of the current frame.
    pub fn get_disp_rect(&self) -> (r: Rect)
        ensures
            r == self.spec_disp_rect(),
    {
        self.disp_rect
    }

    /// The minimum zoom for the current viewport size.
    pub fn get_min_zoom(&self) -> (r: u32)
        requires
            self.wf(),
        ensures
            r == spec_min_zoom(self.spec_chart_size(), self.spec_disp_rect().size),
            1 <= r <= ZOOM_SCALE,
    {
        let sw: u64 = ceil_div_u64(
            (self.disp_rect.size.w as u64) * (ZOOM_SCALE as u64),
            self.chart_size.w as u64,
        );
        let sh: u64 = ceil_div_u64(
            (self.disp_rect.size.h as u64) * (ZOOM_SCALE as u64),
            self.chart_size.h as u64,
        );
        let m: u64 = if sw >= sh {
            sw
        } else {
            sh
        };
        let m2: u64 = if m >= 1 {
            m
        } else {
            1
        };
        if m2 <= (ZOOM_SCALE as u64) {
            m2 as u32
        } else {
            ZOOM_SCALE
        }
    }

    /// Record the display rectangle the UI reported for this frame.
    pub fn set_disp_rect(&mut self, rect: Rect)
        requires
            old(self).wf(),
            0 <= rect.pos.x <= MAX_SCROLL,
            0 <= rect.pos.y <= MAX_SCROLL,
            0 <= rect.size.w <= MAX_DIM,
            0 <= rect.size.h <= MAX_DIM,
        ensures
            final(self).wf(),
            final(self).spec_disp_rect() == rect,
            final(self).spec_chart_size() == old(self).spec_chart_size(),
            final(self).spec_scroll() == old(self).spec_scroll(),
            final(self).spec_zoom() == old(self).spec_zoom(),
    {
        self.disp_rect = rect;
    }

    /// Store a pending scroll value, pinned to whole non-negative pixels
    /// inside the representable range.
    pub fn set_scroll(&mut self, pos: Pos)
        requires
            old(self).wf(),
        ensures
            final(self).wf(),
            final(self).spec_scroll() == Some(
                Pos {
                    x: spec_pin_scroll(pos.x as int) as i64,
                    y: spec_pin_scroll(pos.y as int) as i64,
                },
            ),
            final(self).spec_chart_size() == old(self).spec_chart_size(),
            final(self).spec_disp_rect() == old(self).spec_disp_rect(),
            final(self).spec_zoom() == old(self).spec_zoom(),
    {
        let x = pin_scroll(pos.x);
        let y = pin_scroll(pos.y);
        self.scroll = Some(Pos { x, y });
    }

    /// Take the pending scroll value, if any, leaving none behind.
    pub fn take_scroll(&mut self) -> (r: Option<Pos>)
        ensures
            r == old(self).spec_scroll(),
            final(self).spec_scroll() is None,
            final(self).spec_chart_size() == old(self).spec_chart_size(),
            final(self).spec_disp_rect() == old(self).spec_disp_rect(),
            final(self).spec_zoom() == old(self).spec_zoom(),
            old(self).wf() ==> final(self).wf(),
    {
        self.scroll.take()
    }

    /// The scroll offset for a zoom-button step, anchored at the viewport
    /// center.
    pub fn get_zoom_pos(&self, zoom: u32) -> (r: Pos)
        requires
            self.wf(),
            1 <= zoom <= ZOOM_SCALE,
        ensures
            r.x == spec_zoom_scroll(
                self.spec_disp_rect().pos.x as int,
                self.spec_disp_rect().size.w as int / 2,
                zoom as int,
                self.spec_zoom() as int,
            ),
            r.y == spec_zoom_scroll(
                self.spec_disp_rect().pos.y as int,
                self.spec_disp_rect().size.h as int / 2,
                zoom as int,
                self.spec_zoom() as int,
            ),
            0 <= r.x && 0 <= r.y,
    {
        let ax = self.disp_rect.size.w / 2;
        let ay = self.disp_rect.size.h / 2;
        let x = zoom_scroll(self.disp_rect.pos.x, ax, zoom, self.zoom);
        let y = zoom_scroll(self.disp_rect.pos.y, ay, zoom, self.zoom);
        Pos { x, y }
    }

    /// Apply a zoom gesture: scale the zoom by `delta` (millionths), clamp
    /// it into the allowed range, and, if it changed, recompute the scroll
    /// offset so that the chart point under `anchor` stays put.
    pub fn apply_zoom(&mut self, delta: u32, anchor: Pos)
        requires
            old(self).wf(),
            0 <= anchor.x <= MAX_DIM,
            0 <= anchor.y <= MAX_DIM,
        ensures
            final(self).wf(),
            final(self).spec_chart_size() == old(self).spec_chart_size(),
            final(self).spec_disp_rect() == old(self).spec_disp_rect(),
            ({
                let nz = spec_clamp_zoom(
                    old(self).spec_zoom() * delta / (ZOOM_SCALE as int),
                    spec_min_zoom(old(self).spec_chart_size(), old(self).spec_disp_rect().size),
                );
                if nz == old(self).spec_zoom() {
                    final(self).spec_zoom() == old(self).spec_zoom() && final(self).spec_scroll()
                        == old(self).spec_scroll()
                } else {
                    final(self).spec_zoom() == nz && final(self).spec_scroll() == Some(
                        Pos {
                            x: spec_pin_scroll(
                                spec_zoom_scroll(
                                    old(self).spec_disp_rect().pos.x as int,
                                    anchor.x as int,
                                    nz,
                                    old(self).spec_zoom() as int,
                                ),
                            ) as i64,
                            y: spec_pin_scroll(
                                spec_zoom_scroll(
                                    old(self).spec_disp_rect().pos.y as int,
                                    anchor.y as int,
                                    nz,
                                    old(self).spec_zoom() as int,
                                ),
                            ) as i64,
                        },
                    )
                }
            }),
    {
        let min_zoom = self.get_min_zoom();
        proof {
            assert(self.zoom * delta <= ZOOM_SCALE * 0xffff_ffffu32) by (nonlinear_arith)
                requires
                    0 <= self.zoom <= ZOOM_SCALE,
                    0 <= delta <= 0xffff_ffffu32,
            ;
        }
        let raw: u64 = (self.zoom as u64) * (delta as u64) / (ZOOM_SCALE as u64);
        let nz: u32 = if raw < (min_zoom as u64) {
            min_zoom
        } else if raw > (ZOOM_SCALE as u64) {
            ZOOM_SCALE
        } else {
            raw as u32
        };
        if nz == self.zoom {
            return ;
        }
        let sx = zoom_scroll(self.disp_rect.pos.x, anchor.x, nz, self.zoom);
        let sy = zoom_scroll(self.disp_rect.pos.y, anchor.y, nz, self.zoom);
        self.zoom = nz;
        self.set_scroll(Pos { x: sx, y: sy });
    }

    /// One zoom-in button step: a quarter closer to full resolution, at
    /// most 1.0, anchored at the viewport center.
    pub fn zoom_in_step(&mut self)
        requires
            old(self).wf(),
        ensures
            final(self).wf(),
            final(self).spec_chart_size() == old(self).spec_chart_size(),
            final(self).spec_disp_rect() == old(self).spec_disp_rect(),
            ({
                let nz = (if old(self).spec_zoom() * 1_250_000 / (ZOOM_SCALE as int) > ZOOM_SCALE {
                    ZOOM_SCALE as int
                } else {
                    old(self).spec_zoom() * 1_250_000 / (ZOOM_SCALE as int)
                });
                if nz == old(self).spec_zoom() {
                    final(self).spec_zoom() == old(self).spec_zoom() && final(self).spec_scroll()
                        == old(self).spec_scroll()
                } else {
                    final(self).spec_zoom() == nz && final(self).spec_scroll() == Some(
                        Pos {
                            x: spec_pin_scroll(
                                spec_zoom_scroll(
                                    old(self).spec_disp_rect().pos.x as int,
                                    old(self).spec_disp_rect().size.w as int / 2,
                                    nz,
                                    old(self).spec_zoom() as int,
                                ),
                            ) as i64,
                            y: spec_pin_scroll(
                                spec_zoom_scroll(
                                    old(self).spec_disp_rect().pos.y as int,
                                    old(self).spec_disp_rect().size.h as int / 2,
                                    nz,
                                    old(self).spec_zoom() as int,
                                ),
                            ) as i64,
                        },
                    )
                }
            }),
    {
        proof {
            assert(self.zoom * 1_250_000 <= ZOOM_SCALE * 1_250_000) by (nonlinear_arith)
                requires
                    0 <= self.zoom <= ZOOM_SCALE,
            ;
        }
        let raw: u64 = (self.zoom as u64) * 1_250_000u64 / (ZOOM_SCALE as u64);
        let nz: u32 = if raw > (ZOOM_SCALE as u64) {
            ZOOM_SCALE
        } else {
            raw as u32
        };
        if nz == self.zoom {
            return ;
        }
        proof {
            vstd::arithmetic::div_mod::lemma_div_is_ordered(
                self.zoom as int * ZOOM_SCALE as int,
                self.zoom as int * 1_250_000,
                ZOOM_SCALE as int,
            );
            assert(self.zoom * (ZOOM_SCALE as int) == (ZOOM_SCALE as int) * self.zoom)
                by (nonlinear_arith);
            vstd::arithmetic::div_mod::lemma_fundamental_div_mod_converse(
                (ZOOM_SCALE as int) * self.zoom,
                ZOOM_SCALE as int,
                self.zoom as int,
                0,
            );
            assert(raw >= self.zoom);
        }
        let pos = self.get_zoom_pos(nz);
        self.zoom = nz;
        self.set_scroll(pos);
    }

    /// One zoom-out button step: a fifth farther out, never below the
    /// viewport's minimum zoom, anchored at the viewport center.
    pub fn zoom_out_step(&mut self)
        requires
            old(self).wf(),
        ensures
            final(self).wf(),
            final(self).spec_chart_size() == old(self).spec_chart_size(),
            final(self).spec_disp_rect() == old(self).spec_disp_rect(),
            ({
                let mz = spec_min_zoom(
                    old(self).spec_chart_size(),
                    old(self).spec_disp_rect().size,
                );
                let nz = (if old(self).spec_zoom() * 800_000 / (ZOOM_SCALE as int) < mz {
                    mz
                } else {
                    old(self).spec_zoom() * 800_000 / (ZOOM_SCALE as int)
                });
                if nz == old(self).spec_zoom() {
                    final(self).spec_zoom() == old(self).spec_zoom() && final(self).spec_scroll()
                        == old(self).spec_scroll()
                } else {
                    final(self).spec_zoom() == nz && final(self).spec_scroll() == Some(
                        Pos {
                            x: spec_pin_scroll(
                                spec_zoom_scroll(
                                    old(self).spec_disp_rect().pos.x as int,
                                    old(self).spec_disp_rect().size.w as int / 2,
                                    nz,
                                    old(self).spec_zoom() as int,
                                ),
                            ) as i64,
                            y: spec_pin_scroll(
                                spec_zoom_scroll(
                                    old(self).spec_disp_rect().pos.y as int,
                                    old(self).spec_disp_rect().size.h as int / 2,
                                    nz,
                                    old(self).spec_zoom() as int,
                                ),
                            ) as i64,
                        },
                    )
                }
            }),
    {
        let mz = self.get_min_zoom();
        proof {
            assert(self.zoom * 800_000 <= ZOOM_SCALE * 800_000) by (nonlinear_arith)
                requires
                    0 <= self.zoom <= ZOOM_SCALE,
            ;
        }
        let raw: u64 = (self.zoom as u64) * 800_000u64 / (ZOOM_SCALE as u64);
        let nz: u32 = if raw < (mz as u64) {
            mz
        } else {
            raw as u32
        };
        if nz == self.zoom {
            return ;
        }
        proof {
            assert(nz <= ZOOM_SCALE) by {
                if raw >= mz as u64 {
                    vstd::arithmetic::div_mod::lemma_div_is_ordered(
                        self.zoom as int * 800_000,
                        ZOOM_SCALE as int * ZOOM_SCALE as int,
                        ZOOM_SCALE as int,
                    );
                    assert(self.zoom * 800_000 <= ZOOM_SCALE * (ZOOM_SCALE as int))
                        by (nonlinear_arith)
                        requires
                            0 <= self.zoom <= ZOOM_SCALE,
                    ;
                    vstd::arithmetic::div_mod::lemma_fundamental_div_mod_converse(
                        ZOOM_SCALE as int * ZOOM_SCALE as int,
                        ZOOM_SCALE as int,
                        ZOOM_SCALE as int,
                        0,
                    );
                }
            }
        }
        let pos = self.get_zoom_pos(nz);
        self.zoom = nz;
        self.set_scroll(pos);
    }

    /// Clamp the current zoom up to the viewport's minimum; reports
    /// whether it changed.
    pub fn enforce_min_zoom(&mut self) -> (changed: bool)
        requires
            old(self).wf(),
        ensures
            final(self).wf(),
            final(self).spec_chart_size() == old(self).spec_chart_size(),
            final(self).spec_disp_rect() == old(self).spec_disp_rect(),
            final(self).spec_scroll() == old(self).spec_scroll(),
            final(self).spec_zoom() == (if old(self).spec_zoom() >= spec_min_zoom(
                old(self).spec_chart_size(),
                old(self).spec_disp_rect().size,
            ) {
                old(self).spec_zoom() as int
            } else {
                spec_min_zoom(old(self).spec_chart_size(), old(self).spec_disp_rect().size)
            }),
            changed == (final(self).spec_zoom() != old(self).spec_zoom()),
    {
        let mz = self.get_min_zoom();
        if self.zoom < mz {
            self.zoom = mz;
            true
        } else {
            false
        }
    }

    /// The request the current frame calls for.
    pub fn desired_part(&self, night: bool) -> (r: ImagePart)
        requires
            self.wf(),
        ensures
            r == self.spec_desired_part(night),
            r.wf(),
    {
        let mz = self.get_min_zoom();
        let rz = if self.zoom >= mz {
            self.zoom
        } else {
            mz
        };
        ImagePart::new(self.disp_rect, rz, night)
    }

    /// Whether a new tile request is due: no tile has been decoded yet,
    /// or the last decoded tile differs from what this frame calls for.
    pub fn needs_request(&self, last: Option<&ImagePart>, night: bool) -> (r: bool)
        requires
            self.wf(),
        ensures
            r == (match last {
                None => true,
                Some(p) => *p != self.spec_desired_part(night),
            }),
    {
        let want = self.desired_part(night);
        match last {
            None => true,
            Some(p) => *p != want,
        }
    }

    /// The chart pixel under a click: the click's viewport-relative
    /// position plus the current scroll offset, scaled by the inverse of
    /// the zoom.
    pub fn click_to_px(&self, click: Pos) -> (r: Pos)
        requires
            self.wf(),
            0 <= click.x <= MAX_DIM,
            0 <= click.y <= MAX_DIM,
        ensures
            r.x == (click.x + self.spec_disp_rect().pos.x) * ZOOM_SCALE / self.spec_zoom() as int,
            r.y == (click.y + self.spec_disp_rect().pos.y) * ZOOM_SCALE / self.spec_zoom() as int,
            0 <= r.x && 0 <= r.y,
    {
        let x = inv_zoom(click.x + self.disp_rect.pos.x, self.zoom);
        let y = inv_zoom(click.y + self.disp_rect.pos.y, self.zoom);
        Pos { x, y }
    }

    /// The nearby-search radius at the current zoom, in projected
    /// millimeters: half a nautical mile at full resolution, growing as
    /// the view zooms out.
    pub fn search_radius(&self) -> (r: i64)
        requires
            self.wf(),
        ensures
            r == SEARCH_RADIUS_MM * ZOOM_SCALE / self.spec_zoom() as int,
            r >= 0,
    {
        (((SEARCH_RADIUS_MM as u64) * (ZOOM_SCALE as u64)) / (self.zoom as u64)) as i64
    }

    /// Center the viewport on a chart pixel position at full zoom.
    pub fn goto_px(&mut self, p: Pos)
        requires
            old(self).wf(),
            old(self).spec_chart_size().spec_contains(p),
        ensures
            final(self).wf(),
            final(self).spec_chart_size() == old(self).spec_chart_size(),
            final(self).spec_disp_rect() == old(self).spec_disp_rect(),
            final(self).spec_zoom() == ZOOM_SCALE,
            final(self).spec_scroll() == Some(
                Pos {
                    x: spec_pin_scroll(p.x - old(self).spec_disp_rect().size.w as int / 2) as i64,
                    y: spec_pin_scroll(p.y - old(self).spec_disp_rect().size.h as int / 2) as i64,
                },
            ),
    {
        let x = p.x - self.disp_rect.size.w / 2;
        let y = p.y - self.disp_rect.size.h / 2;
        self.zoom = ZOOM_SCALE;
        self.set_scroll(Pos { x, y });
    }

    /// Shift the scroll offset when the side panel is shown or hidden, so
    /// the same chart content stays centered.
    pub fn panel_shift(&mut self, visible: bool, panel_width: i64)
        requires
            old(self).wf(),
            0 <= panel_width <= MAX_DIM,
        ensures
            final(self).wf(),
            final(self).spec_chart_size() == old(self).spec_chart_size(),
            final(self).spec_disp_rect() == old(self).spec_disp_rect(),
            final(self).spec_zoom() == old(self).spec_zoom(),
            final(self).spec_scroll() == Some(
                Pos {
                    x: spec_pin_scroll(
                        old(self).spec_disp_rect().pos.x + (if visible {
                            panel_width + 1
                        } else {
                            -panel_width - 1
                        }),
                    ) as i64,
                    y: spec_pin_scroll(old(self).spec_disp_rect().pos.y as int) as i64,
                },
            ),
    {
        let pos = self.disp_rect.pos;
        let x = if visible {
            pos.x + (panel_width + 1)
        } else {
            pos.x - (panel_width + 1)
        };
        self.set_scroll(Pos { x, y: pos.y });
    }
}

} // verus!
