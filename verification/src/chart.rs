//! Opening a chart and turning viewport requests into decoded images.
//!
//! [`Transform`] relates chart pixels to the chart's projected frame
//! (a conformal conic projection in meters; coordinates here are held in
//! millimeters).  [`Source`] owns the request/reply bookkeeping of the
//! background decode worker: requests are coalesced so that only the most
//! recent one is decoded, and every superseded request is reported back as
//! [`Reply::Canceled`].

use vstd::prelude::*;

use crate::geom::{floor_div, floor_div_i64, Coord, Pos, Rect, Size, MAX_DIM, ZOOM_SCALE};
use crate::text::{contains_seq, lower_bytes};
use vstd::string::StringSliceAdditionalSpecFns;

verus! {

/// Why a chart could not be opened.
#[derive(Clone, Copy, Debug, PartialEq, Eq, Structural)]
pub enum SourceError {
    /// The chart pixel size is not valid.
    InvalidPixelSize,
    /// The projection is not conformal conic, the datum is not the expected
    /// one, or the unit is not meters.
    InvalidSpatialReference,
    /// No palette-indexed raster band was found.
    RasterNotFound,
    /// The raster band has no color palette.
    PaletteNotFound,
    /// The color palette does not have the required number of entries or an
    /// entry is out of range.
    InvalidPalette,
}

/// Largest magnitude of a projected-frame scale term, in millimeters per
/// pixel (one kilometer per pixel).
pub const MAX_SCALE: i64 = 1_000_000;

/// Largest magnitude of a projected-frame origin term, in millimeters.
pub const MAX_ORIGIN: i64 = 4_000_000_000_000_000;

/// The projection definition is acceptable: its lower-cased text names a
/// conformal conic projection, the expected datum and meters.
pub open spec fn spec_proj_ok(sb: Seq<u8>) -> bool {
    &&& contains_seq(lower_bytes(sb), "+proj=lcc".spec_bytes())
    &&& contains_seq(lower_bytes(sb), "+datum=nad83".spec_bytes())
    &&& contains_seq(lower_bytes(sb), "+units=m".spec_bytes())
}

/// Whether a projection definition in PROJ4 form is acceptable.
pub fn check_proj4(proj4: &str) -> (r: bool)
    ensures
        r == spec_proj_ok(proj4.spec_bytes()),
{
    let lb = crate::text::to_lower(proj4.as_bytes());
    let a = crate::text::contains_bytes(lb.as_slice(), "+proj=lcc".as_bytes());
    let b = crate::text::contains_bytes(lb.as_slice(), "+datum=nad83".as_bytes());
    let c = crate::text::contains_bytes(lb.as_slice(), "+units=m".as_bytes());
    a && b && c
}

/// Transformations between pixel and chart (projected) coordinates.
///
/// The projected frame is linear in the pixel frame: each axis is an origin
/// plus a nonzero integer scale in millimeters per pixel.  The projection
/// itself (projected to geodetic) is the raster backend's affair; this type
/// carries the backend's projection definition so that the feature worker
/// can be pointed at the same frame.
pub struct Transform {
    px_size: Size,
    proj4: String,
    origin_x: i64,
    origin_y: i64,
    scale_x: i64,
    scale_y: i64,
}

impl Transform {
    /// The invariant every constructed transform satisfies.
    pub closed spec fn wf(self) -> bool {
        &&& self.px_size.spec_is_valid()
        &&& self.scale_x != 0 && -MAX_SCALE <= self.scale_x <= MAX_SCALE
        &&& self.scale_y != 0 && -MAX_SCALE <= self.scale_y <= MAX_SCALE
        &&& -MAX_ORIGIN <= self.origin_x <= MAX_ORIGIN
        &&& -MAX_ORIGIN <= self.origin_y <= MAX_ORIGIN
        &&& spec_proj_ok(vstd::utf8::encode_utf8(self.proj4@))
    }

    /// The chart's pixel size.
    pub closed spec fn spec_px_size(self) -> Size {
        self.px_size
    }

    /// The stored projection definition, as text.
    pub closed spec fn spec_proj4(self) -> Seq<char> {
        self.proj4@
    }

    /// Projected-frame x of pixel column zero, in millimeters.
    pub closed spec fn spec_origin_x(self) -> i64 {
        self.origin_x
    }

    /// Projected-frame y of pixel row zero, in millimeters.
    pub closed spec fn spec_origin_y(self) -> i64 {
        self.origin_y
    }

    /// Millimeters of projected x per pixel column.
    pub closed spec fn spec_scale_x(self) -> i64 {
        self.scale_x
    }

    /// Millimeters of projected y per pixel row.
    pub closed spec fn spec_scale_y(self) -> i64 {
        self.scale_y
    }

    /// The projected coordinate of a pixel position.
    pub open spec fn spec_px_to_chart(self, p: Pos) -> Coord {
        Coord {
            x: (self.spec_origin_x() + self.spec_scale_x() * p.x) as i64,
            y: (self.spec_origin_y() + self.spec_scale_y() * p.y) as i64,
        }
    }

    /// The pixel position of a projected coordinate, rounded down.
    pub open spec fn spec_chart_to_px(self, c: Coord) -> Pos {
        Pos {
            x: floor_div(c.x - self.spec_origin_x(), self.spec_scale_x() as int) as i64,
            y: floor_div(c.y - self.spec_origin_y(), self.spec_scale_y() as int) as i64,
        }
    }

    /// A projected coordinate close enough to the chart for the inverse
    /// transform's arithmetic (the whole chart lies inside this margin).
    pub open spec fn spec_near_chart(self, c: Coord) -> bool {
        &&& -(MAX_SCALE * MAX_DIM) <= c.x - self.spec_origin_x() <= MAX_SCALE * MAX_DIM
        &&& -(MAX_SCALE * MAX_DIM) <= c.y - self.spec_origin_y() <= MAX_SCALE * MAX_DIM
    }

    /// Build the transform for one opened chart.
    ///
    /// `origin` and `scale` are the linear pixel-to-projected terms supplied
    /// by the raster backend, in millimeters; a backend never hands out a
    /// degenerate (zero-scale) transform, and the bounds are the fixed-point
    /// representation's own limits.
    ///
    /// Fails with `InvalidSpatialReference` when the projection definition
    /// is not conformal conic with the expected datum in meters, and with
    /// `InvalidPixelSize` when either pixel dimension is out of range.
    pub fn new(
        px_size: Size,
        proj4: String,
        origin_x: i64,
        origin_y: i64,
        scale_x: i64,
        scale_y: i64,
    ) -> (r: Result<Transform, SourceError>)
        requires
            scale_x != 0 && -MAX_SCALE <= scale_x <= MAX_SCALE,
            scale_y != 0 && -MAX_SCALE <= scale_y <= MAX_SCALE,
            -MAX_ORIGIN <= origin_x <= MAX_ORIGIN,
            -MAX_ORIGIN <= origin_y <= MAX_ORIGIN,
        ensures
            r is Ok <==> spec_proj_ok(vstd::utf8::encode_utf8(proj4@)) && px_size.spec_is_valid(),
            match r {
                Ok(t) => {
                    &&& t.wf()
                    &&& t.spec_px_size() == px_size
                    &&& t.spec_proj4() == proj4@
                    &&& t.spec_origin_x() == origin_x
                    &&& t.spec_origin_y() == origin_y
                    &&& t.spec_scale_x() == scale_x
                    &&& t.spec_scale_y() == scale_y
                },
                Err(e) => {
                    if !spec_proj_ok(vstd::utf8::encode_utf8(proj4@)) {
                        e == SourceError::InvalidSpatialReference
                    } else {
                        e == SourceError::InvalidPixelSize
                    }
                },
            },
    {
        if !check_proj4(proj4.as_str()) {
            return Err(SourceError::InvalidSpatialReference);
        }
        if !px_size.is_valid() {
            return Err(SourceError::InvalidPixelSize);
        }
        Ok(Transform { px_size, proj4, origin_x, origin_y, scale_x, scale_y })
    }

    /// Get the stored projection definition.
    pub fn get_proj4(&self) -> (r: String)
        ensures
            r@ == self.spec_proj4(),
    {
        self.proj4.clone()
    }

    /// Get the full size of the chart in pixels.
    pub fn px_size(&self) -> (r: Size)
        ensures
            r == self.spec_px_size(),
    {
        self.px_size
    }

    /// Convert a pixel distance to a projected distance in millimeters,
    /// using the y scale term.
    pub fn px_to_dist(&self, px: i64) -> (r: i64)
        requires
            self.wf(),
            -MAX_DIM <= px <= MAX_DIM,
        ensures
            r == px * self.spec_scale_y(),
    {
        proof {
            assert(-(MAX_SCALE * MAX_DIM) <= px * self.spec_scale_y() <= MAX_SCALE * MAX_DIM)
                by (nonlinear_arith)
                requires
                    -MAX_DIM <= px <= MAX_DIM,
                    -MAX_SCALE <= self.spec_scale_y() <= MAX_SCALE,
            ;
        }
        px * self.scale_y
    }

    /// Convert a pixel position inside the chart to a projected coordinate.
    pub fn px_to_chart(&self, p: Pos) -> (r: Coord)
        requires
            self.wf(),
            self.spec_px_size().spec_contains(p),
        ensures
            r == self.spec_px_to_chart(p),
            self.spec_near_chart(r),
    {
        proof {
            assert(-(MAX_SCALE * MAX_DIM) <= self.spec_scale_x() * p.x <= MAX_SCALE * MAX_DIM)
                by (nonlinear_arith)
                requires
                    0 <= p.x <= MAX_DIM,
                    -MAX_SCALE <= self.spec_scale_x() <= MAX_SCALE,
            ;
            assert(-(MAX_SCALE * MAX_DIM) <= self.spec_scale_y() * p.y <= MAX_SCALE * MAX_DIM)
                by (nonlinear_arith)
                requires
                    0 <= p.y <= MAX_DIM,
                    -MAX_SCALE <= self.spec_scale_y() <= MAX_SCALE,
            ;
        }
        Coord { x: self.origin_x + self.scale_x * p.x, y: self.origin_y + self.scale_y * p.y }
    }

    /// Convert a projected coordinate near the chart to a pixel position,
    /// rounded down to whole pixels.
    pub fn chart_to_px(&self, c: Coord) -> (r: Pos)
        requires
            self.wf(),
            self.spec_near_chart(c),
        ensures
            r == self.spec_chart_to_px(c),
    {
        let x = floor_div_i64(c.x - self.origin_x, self.scale_x);
        let y = floor_div_i64(c.y - self.origin_y, self.scale_y);
        Pos { x, y }
    }
}

/// The part of the image we need for display: a display rectangle in
/// source pixel space, a zoom factor in millionths, and a day/night flag.
///
/// Two parts are equal exactly when rectangle, zoom and flag match; the
/// integer zoom makes the comparison bit-exact, which request
/// deduplication relies on.
#[derive(Clone, Copy, Debug, Eq, Hash, PartialEq, Structural)]
pub struct ImagePart {
    pub rect: Rect,
    pub zoom: u32,
    pub dark: bool,
}

impl ImagePart {
    /// The zoom factor of a request is always positive.
    pub open spec fn wf(self) -> bool {
        self.zoom > 0
    }

    /// Build a request part.  A zoom value of zero is not valid.
    pub fn new(rect: Rect, zoom: u32, dark: bool) -> (r: Self)
        requires
            zoom > 0,
        ensures
            r == (ImagePart { rect, zoom, dark }),
    {
        Self { rect, zoom, dark }
    }

    /// The rectangle in source pixel space covered by this part: the
    /// display rectangle scaled by the inverse of the zoom factor, rounded
    /// down.
    pub fn source_rect(&self) -> (r: Rect)
        requires
            self.wf(),
            0 <= self.rect.pos.x <= MAX_DIM,
            0 <= self.rect.pos.y <= MAX_DIM,
            0 <= self.rect.size.w <= MAX_DIM,
            0 <= self.rect.size.h <= MAX_DIM,
        ensures
            r.pos.x == self.rect.pos.x * ZOOM_SCALE / self.zoom as int,
            r.pos.y == self.rect.pos.y * ZOOM_SCALE / self.zoom as int,
            r.size.w == self.rect.size.w * ZOOM_SCALE / self.zoom as int,
            r.size.h == self.rect.size.h * ZOOM_SCALE / self.zoom as int,
    {
        let x = inv_scale(self.rect.pos.x, self.zoom);
        let y = inv_scale(self.rect.pos.y, self.zoom);
        let w = inv_scale(self.rect.size.w, self.zoom);
        let h = inv_scale(self.rect.size.h, self.zoom);
        Rect { pos: Pos { x, y }, size: Size { w, h } }
    }
}

/// One display-pixel quantity scaled by the inverse of a zoom factor.
fn inv_scale(v: i64, zoom: u32) -> (r: i64)
    requires
        zoom > 0,
        0 <= v <= MAX_DIM,
    ensures
        r == v * ZOOM_SCALE / zoom as int,
{
    (((v as u64) * (ZOOM_SCALE as u64)) / (zoom as u64)) as i64
}

/// One RGBA color.
#[derive(Clone, Copy, Debug, Eq, Hash, PartialEq, Structural)]
pub struct Rgba {
    pub r: u8,
    pub g: u8,
    pub b: u8,
    pub a: u8,
}

/// One color table entry as the raster backend reports it, each component
/// nominally in `0..256`.
#[derive(Clone, Copy, Debug, Eq, Hash, PartialEq, Structural)]
pub struct ColorEntry {
    pub r: i16,
    pub g: i16,
    pub b: i16,
    pub a: i16,
}

/// All components of the entry are in `0..256`.
pub open spec fn spec_color_ok(e: ColorEntry) -> bool {
    &&& 0 <= e.r < 256
    &&& 0 <= e.g < 256
    &&& 0 <= e.b < 256
    &&& 0 <= e.a < 256
}

/// Whether a backend color entry is in range.
pub fn check_color(e: ColorEntry) -> (r: bool)
    ensures
        r == spec_color_ok(e),
{
    0 <= e.r && e.r < 256 && 0 <= e.g && e.g < 256 && 0 <= e.b && e.b < 256 && 0 <= e.a
        && e.a < 256
}

/// The day-palette color of an in-range entry.
pub open spec fn spec_color(e: ColorEntry) -> Rgba {
    Rgba { r: e.r as u8, g: e.g as u8, b: e.b as u8, a: e.a as u8 }
}

/// The night-palette color of an in-range entry: the same color with its
/// RGB components inverted.
pub open spec fn spec_inverted_color(e: ColorEntry) -> Rgba {
    Rgba { r: (255 - e.r) as u8, g: (255 - e.g) as u8, b: (255 - e.b) as u8, a: e.a as u8 }
}

/// One raster band as the backend reports it: whether its samples index a
/// palette, and its color table if it has one.
#[derive(Debug)]
pub struct BandInfo {
    pub palette_index: bool,
    pub color_table: Option<Vec<ColorEntry>>,
}

/// A 256-entry color table whose entries are all in range.
pub open spec fn spec_palette_ok(t: Seq<ColorEntry>) -> bool {
    &&& t.len() == 256
    &&& forall|i: int| 0 <= i < t.len() ==> spec_color_ok(#[trigger] t[i])
}

/// The color table selected when a chart is opened: the first
/// palette-indexed band's table, or the error that rules the chart out.
pub open spec fn spec_band_scan(bands: Seq<BandInfo>) -> Result<Seq<ColorEntry>, SourceError>
    decreases bands.len(),
{
    if bands.len() == 0 {
        Err(SourceError::RasterNotFound)
    } else if bands[0].palette_index {
        match bands[0].color_table {
            Some(t) => if spec_palette_ok(t@) {
                Ok(t@)
            } else {
                Err(SourceError::InvalidPalette)
            },
            None => Err(SourceError::PaletteNotFound),
        }
    } else {
        spec_band_scan(bands.drop_first())
    }
}

/// A decoded viewport tile: RGBA pixels for one request part.
#[derive(Debug)]
pub struct DecodedImage {
    pub width: i64,
    pub height: i64,
    pub pixels: Vec<Rgba>,
}

/// A request to the decode worker.
#[derive(Clone, Copy, Debug)]
pub enum Request {
    /// Read the given part of the chart.
    Read(ImagePart),
    /// Stop working; sent exactly once when the chart is closed.
    Exit,
}

/// An outcome delivered back to the display side.
#[derive(Debug)]
pub enum Reply {
    /// Image result from a read operation.
    Image(ImagePart, DecodedImage),
    /// Read request was canceled in favor of a more recent read request.
    Canceled(ImagePart),
    /// Backend failure from a read operation, with the backend's message.
    DecodeError(ImagePart, String),
}

/// What one queue drain does, processing requests in submission order
/// while carrying the read request taken up so far: the surviving read
/// request, the read requests canceled along the way, and whether an exit
/// request was observed (which stops the drain at once).
pub open spec fn spec_drain(reqs: Seq<Request>, read: Option<ImagePart>) -> (
    Option<ImagePart>,
    Seq<ImagePart>,
    bool,
)
    decreases reqs.len(),
{
    if reqs.len() == 0 {
        (read, Seq::<ImagePart>::empty(), false)
    } else {
        match reqs[0] {
            Request::Read(p) => {
                let rest = spec_drain(reqs.drop_first(), Some(p));
                let emitted = match read {
                    Some(q) => seq![q],
                    None => Seq::<ImagePart>::empty(),
                };
                (rest.0, emitted + rest.1, rest.2)
            },
            Request::Exit => (None, Seq::<ImagePart>::empty(), true),
        }
    }
}

/// Chart source: the open chart's transform, its two color palettes, and
/// the request/reply bookkeeping of the decode worker.
///
/// The display side submits requests with [`Source::read_image`] and
/// [`Source::close`]; the worker side calls [`Source::drain`] to coalesce
/// the backlog down to the most recent request and [`Source::complete`] to
/// turn the backend's palette-indexed buffer into a reply.  Replies come
/// back in order through [`Source::get_next_reply`].
pub struct Source {
    transform: Transform,
    light: Vec<Rgba>,
    dark: Vec<Rgba>,
    pending: Vec<Request>,
    replies: Vec<Reply>,
    exited: bool,
}

impl Source {
    /// The chart's coordinate transform.
    pub closed spec fn spec_transform(self) -> Transform {
        self.transform
    }

    /// The day palette.
    pub closed spec fn spec_light(self) -> Seq<Rgba> {
        self.light@
    }

    /// The night palette.
    pub closed spec fn spec_dark(self) -> Seq<Rgba> {
        self.dark@
    }

    /// Requests submitted and not yet drained, oldest first.
    pub closed spec fn spec_pending(self) -> Seq<Request> {
        self.pending@
    }

    /// Replies produced and not yet collected, oldest first.
    pub closed spec fn spec_replies(self) -> Seq<Reply> {
        self.replies@
    }

    /// Whether the worker has observed the exit request.
    pub closed spec fn spec_exited(self) -> bool {
        self.exited
    }

    /// The invariant every open source satisfies.
    pub closed spec fn wf(self) -> bool {
        &&& self.transform.wf()
        &&& self.light@.len() == 256
        &&& self.dark@.len() == 256
        &&& forall|i: int|
            0 <= i < self.pending@.len() ==> ((#[trigger] self.pending@[i]) is Read
                ==> self.pending@[i]->Read_0.wf())
    }

    /// Open a chart source from what the raster backend reports: pixel
    /// size, projection definition, the linear pixel-to-projected terms in
    /// millimeters, and the raster bands.
    ///
    /// Fails exactly as [`Transform::new`] does for the projection and the
    /// pixel size; otherwise the first palette-indexed band must carry a
    /// 256-entry color table whose entries are all in range.
    pub fn open(
        px_size: Size,
        proj4: String,
        origin_x: i64,
        origin_y: i64,
        scale_x: i64,
        scale_y: i64,
        bands: Vec<BandInfo>,
    ) -> (r: Result<Source, SourceError>)
        requires
            scale_x != 0 && -MAX_SCALE <= scale_x <= MAX_SCALE,
            scale_y != 0 && -MAX_SCALE <= scale_y <= MAX_SCALE,
            -MAX_ORIGIN <= origin_x <= MAX_ORIGIN,
            -MAX_ORIGIN <= origin_y <= MAX_ORIGIN,
        ensures
            r is Ok <==> spec_proj_ok(vstd::utf8::encode_utf8(proj4@)) && px_size.spec_is_valid()
                && spec_band_scan(bands@) is Ok,
            match r {
                Ok(s) => {
                    &&& s.wf()
                    &&& s.spec_transform().spec_px_size() == px_size
                    &&& s.spec_transform().spec_proj4() == proj4@
                    &&& s.spec_transform().spec_origin_x() == origin_x
                    &&& s.spec_transform().spec_origin_y() == origin_y
                    &&& s.spec_transform().spec_scale_x() == scale_x
                    &&& s.spec_transform().spec_scale_y() == scale_y
                    &&& (spec_band_scan(bands@) matches Ok(t) && s.spec_light()
                        == t.map_values(|e: ColorEntry| spec_color(e)) && s.spec_dark()
                        == t.map_values(|e: ColorEntry| spec_inverted_color(e)))
                    &&& s.spec_pending() == Seq::<Request>::empty()
                    &&& s.spec_replies() == Seq::<Reply>::empty()
                    &&& !s.spec_exited()
                },
                Err(e) => {
                    if !spec_proj_ok(vstd::utf8::encode_utf8(proj4@)) {
                        e == SourceError::InvalidSpatialReference
                    } else if !px_size.spec_is_valid() {
                        e == SourceError::InvalidPixelSize
                    } else {
                        spec_band_scan(bands@) matches Err(se) && e == se
                    }
                },
            },
    {
        let transform = match Transform::new(px_size, proj4, origin_x, origin_y, scale_x, scale_y) {
            Ok(t) => t,
            Err(e) => {
                return Err(e);
            },
        };
        let table = match scan_bands(&bands) {
            Ok(t) => t,
            Err(e) => {
                return Err(e);
            },
        };
        let mut light: Vec<Rgba> = Vec::new();
        let mut dark: Vec<Rgba> = Vec::new();
        let mut k: usize = 0;
        while k < table.len()
            invariant
                k <= table@.len(),
                spec_palette_ok(table@),
                light@ == table@.take(k as int).map_values(|e: ColorEntry| spec_color(e)),
                dark@ == table@.take(k as int).map_values(
                    |e: ColorEntry| spec_inverted_color(e),
                ),
            decreases table@.len() - k,
        {
            let e = table[k];
            light.push(Rgba { r: e.r as u8, g: e.g as u8, b: e.b as u8, a: e.a as u8 });
            dark.push(
                Rgba {
                    r: (255 - e.r) as u8,
                    g: (255 - e.g) as u8,
                    b: (255 - e.b) as u8,
                    a: e.a as u8,
                },
            );
            proof {
                assert(table@.take(k + 1).drop_last() == table@.take(k as int));
                assert(light@ =~= table@.take(k + 1).map_values(
                    |e: ColorEntry| spec_color(e),
                ));
                assert(dark@ =~= table@.take(k + 1).map_values(
                    |e: ColorEntry| spec_inverted_color(e),
                ));
            }
            k = k + 1;
        }
        proof {
            assert(table@.take(table@.len() as int) == table@);
        }
        Ok(
            Source {
                transform,
                light,
                dark,
                pending: Vec::new(),
                replies: Vec::new(),
                exited: false,
            },
        )
    }

    /// Get the transformation.
    pub fn transform(&self) -> (r: &Transform)
        ensures
            *r == self.spec_transform(),
    {
        &self.transform
    }

    /// Kick-off an image read operation for the given part.
    pub fn read_image(&mut self, part: ImagePart)
        requires
            part.wf(),
        ensures
            final(self).spec_pending() == old(self).spec_pending().push(Request::Read(part)),
            final(self).spec_replies() == old(self).spec_replies(),
            final(self).spec_exited() == old(self).spec_exited(),
            final(self).spec_transform() == old(self).spec_transform(),
            final(self).spec_light() == old(self).spec_light(),
            final(self).spec_dark() == old(self).spec_dark(),
            old(self).wf() ==> final(self).wf(),
    {
        self.pending.push(Request::Read(part));
    }

    /// Submit the exit request; sent exactly once when the chart closes.
    /// After the worker observes it, no further replies are produced.
    pub fn close(&mut self)
        ensures
            final(self).spec_pending() == old(self).spec_pending().push(Request::Exit),
            final(self).spec_replies() == old(self).spec_replies(),
            final(self).spec_exited() == old(self).spec_exited(),
            final(self).spec_transform() == old(self).spec_transform(),
            final(self).spec_light() == old(self).spec_light(),
            final(self).spec_dark() == old(self).spec_dark(),
            old(self).wf() ==> final(self).wf(),
    {
        self.pending.push(Request::Exit);
    }

    /// The worker's drain step: take every pending request, keep only the
    /// most recent read request, and report every superseded one back as
    /// canceled, in submission order.  An exit request stops the worker for
    /// good: nothing after it is processed and no further reply is ever
    /// produced.
    #[verifier::loop_isolation(false)]
    pub fn drain(&mut self) -> (work: Option<ImagePart>)
        requires
            old(self).wf(),
        ensures
            final(self).wf(),
            final(self).spec_transform() == old(self).spec_transform(),
            final(self).spec_light() == old(self).spec_light(),
            final(self).spec_dark() == old(self).spec_dark(),
            final(self).spec_pending() == Seq::<Request>::empty(),
            old(self).spec_exited() ==> ({
                &&& final(self).spec_exited()
                &&& final(self).spec_replies() == old(self).spec_replies()
                &&& work is None
            }),
            !old(self).spec_exited() ==> ({
                let d = spec_drain(old(self).spec_pending(), None::<ImagePart>);
                &&& final(self).spec_replies() == old(self).spec_replies() + d.1.map_values(
                    |p: ImagePart| Reply::Canceled(p),
                )
                &&& final(self).spec_exited() == d.2
                &&& work == (if d.2 {
                    None::<ImagePart>
                } else {
                    d.0
                })
                &&& (work matches Some(p) ==> p.wf())
            }),
    {
        if self.exited {
            self.pending.clear();
            return None;
        }
        let ghost reqs = self.pending@;
        let ghost replies0 = self.replies@;
        let ghost mut done: Seq<ImagePart> = Seq::empty();
        let mut read: Option<ImagePart> = None;
        let mut i: usize = 0;
        let n = self.pending.len();
        proof {
            assert(reqs.skip(0) =~= reqs);
            assert(done + spec_drain(reqs, None::<ImagePart>).1 =~= spec_drain(
                reqs,
                None::<ImagePart>,
            ).1);
            assert(self.replies@ =~= replies0 + done.map_values(
                |p: ImagePart| Reply::Canceled(p),
            ));
        }
        while i < n && !self.exited
            invariant
                i <= n,
                self.pending@ == reqs,
                self.transform == old(self).spec_transform(),
                self.light@ == old(self).spec_light(),
                self.dark@ == old(self).spec_dark(),
                self.replies@ == replies0 + done.map_values(|p: ImagePart| Reply::Canceled(p)),
                (read matches Some(p) ==> p.wf()),
                !self.exited ==> ({
                    let full = spec_drain(reqs, None::<ImagePart>);
                    let rest = spec_drain(reqs.skip(i as int), read);
                    &&& full.0 == rest.0
                    &&& full.1 == done + rest.1
                    &&& full.2 == rest.2
                }),
                self.exited ==> ({
                    let full = spec_drain(reqs, None::<ImagePart>);
                    &&& full.1 == done
                    &&& full.2
                }),
            decreases n - i,
        {
            let req = self.pending[i];
            proof {
                assert(reqs.skip(i as int)[0] == reqs[i as int]);
                assert(reqs.skip(i as int).drop_first() =~= reqs.skip(i + 1));
            }
            match req {
                Request::Read(p) => {
                    if let Some(q) = read {
                        self.replies.push(Reply::Canceled(q));
                        proof {
                            done = done + seq![q];
                            assert(self.replies@ =~= replies0 + done.map_values(
                                |p: ImagePart| Reply::Canceled(p),
                            ));
                        }
                    }
                    read = Some(p);
                },
                Request::Exit => {
                    self.exited = true;
                    read = None;
                },
            }
            i = i + 1;
        }
        proof {
            if !self.exited {
                assert(reqs.skip(n as int) =~= Seq::<Request>::empty());
            }
        }
        self.pending.clear();
        if self.exited {
            None
        } else {
            read
        }
    }

    /// Finish the surviving request of a drain: map the backend's
    /// palette-indexed buffer through the palette chosen by the part's
    /// day/night flag, or record the backend's failure message.  A
    /// successful read carries one sample per destination pixel.  A source
    /// whose worker has exited produces nothing.
    pub fn complete(&mut self, part: ImagePart, data: Result<Vec<u8>, String>)
        requires
            old(self).wf(),
            data matches Ok(d) ==> d@.len() == part.rect.size.w * part.rect.size.h,
        ensures
            final(self).wf(),
            final(self).spec_transform() == old(self).spec_transform(),
            final(self).spec_light() == old(self).spec_light(),
            final(self).spec_dark() == old(self).spec_dark(),
            final(self).spec_pending() == old(self).spec_pending(),
            final(self).spec_exited() == old(self).spec_exited(),
            old(self).spec_exited() ==> final(self).spec_replies() == old(self).spec_replies(),
            !old(self).spec_exited() ==> match data {
                Ok(d) => {
                    &&& final(self).spec_replies().len() == old(self).spec_replies().len() + 1
                    &&& final(self).spec_replies().drop_last() == old(self).spec_replies()
                    &&& (final(self).spec_replies().last() matches Reply::Image(p, img) && p
                        == part && img.width == part.rect.size.w && img.height
                        == part.rect.size.h && img.pixels@ == d@.map_values(
                        (|b: u8| if part.dark {
                            old(self).spec_dark()[b as int]
                        } else {
                            old(self).spec_light()[b as int]
                        }),
                    ))
                },
                Err(e) => final(self).spec_replies() == old(self).spec_replies().push(
                    Reply::DecodeError(part, e),
                ),
            },
    {
        if self.exited {
            return ;
        }
        match data {
            Ok(d) => {
                let mut pixels: Vec<Rgba> = Vec::new();
                let mut i: usize = 0;
                while i < d.len()
                    invariant
                        i <= d@.len(),
                        self.light@.len() == 256,
                        self.dark@.len() == 256,
                        pixels@ == d@.take(i as int).map_values(
                            (|b: u8| if part.dark {
                                self.dark@[b as int]
                            } else {
                                self.light@[b as int]
                            }),
                        ),
                    decreases d@.len() - i,
                {
                    let b = d[i];
                    let c = if part.dark {
                        self.dark[b as usize]
                    } else {
                        self.light[b as usize]
                    };
                    pixels.push(c);
                    proof {
                        assert(d@.take(i + 1).drop_last() == d@.take(i as int));
                        assert(pixels@ =~= d@.take(i + 1).map_values(
                            (|b: u8| if part.dark {
                                self.dark@[b as int]
                            } else {
                                self.light@[b as int]
                            }),
                        ));
                    }
                    i = i + 1;
                }
                proof {
                    assert(d@.take(d@.len() as int) == d@);
                }
                let img = DecodedImage {
                    width: part.rect.size.w,
                    height: part.rect.size.h,
                    pixels,
                };
                self.replies.push(Reply::Image(part, img));
                proof {
                    assert(self.replies@.drop_last() =~= old(self).spec_replies());
                }
            },
            Err(e) => {
                self.replies.push(Reply::DecodeError(part, e));
            },
        }
    }

    /// Whether the worker has observed the exit request.
    pub fn is_exited(&self) -> (r: bool)
        ensures
            r == self.spec_exited(),
    {
        self.exited
    }

    /// Get the next reply if available.
    pub fn get_next_reply(&mut self) -> (r: Option<Reply>)
        ensures
            final(self).spec_transform() == old(self).spec_transform(),
            final(self).spec_light() == old(self).spec_light(),
            final(self).spec_dark() == old(self).spec_dark(),
            final(self).spec_pending() == old(self).spec_pending(),
            final(self).spec_exited() == old(self).spec_exited(),
            old(self).wf() ==> final(self).wf(),
            match r {
                None => old(self).spec_replies().len() == 0 && final(self).spec_replies()
                    == old(self).spec_replies(),
                Some(rep) => old(self).spec_replies().len() > 0 && rep == old(
                    self,
                ).spec_replies()[0] && final(self).spec_replies() == old(
                    self,
                ).spec_replies().drop_first(),
            },
    {
        if self.replies.len() > 0 {
            let rep = self.replies.remove(0);
            proof {
                assert(self.replies@ =~= old(self).spec_replies().drop_first());
            }
            Some(rep)
        } else {
            None
        }
    }
}

/// The color table of the first palette-indexed band, checked.
#[verifier::loop_isolation(false)]
fn scan_bands(bands: &Vec<BandInfo>) -> (r: Result<Vec<ColorEntry>, SourceError>)
    ensures
        match r {
            Ok(t) => spec_band_scan(bands@) matches Ok(st) && t@ == st && spec_palette_ok(t@),
            Err(e) => spec_band_scan(bands@) matches Err(se) && e == se,
        },
{
    proof {
        assert(bands@.skip(0) =~= bands@);
    }
    let mut i: usize = 0;
    while i < bands.len()
        invariant
            i <= bands@.len(),
            spec_band_scan(bands@.skip(i as int)) == spec_band_scan(bands@),
        decreases bands@.len() - i,
    {
        proof {
            assert(bands@.skip(i as int)[0] == bands@[i as int]);
            assert(bands@.skip(i as int).drop_first() =~= bands@.skip(i + 1));
        }
        let band = &bands[i];
        if band.palette_index {
            match &band.color_table {
                Some(t) => {
                    if t.len() != 256 {
                        return Err(SourceError::InvalidPalette);
                    }
                    let mut out: Vec<ColorEntry> = Vec::new();
                    let mut k: usize = 0;
                    while k < t.len()
                        invariant
                            k <= t@.len(),
                            out@ == t@.take(k as int),
                            forall|j: int| 0 <= j < k ==> spec_color_ok(#[trigger] t@[j]),
                        decreases t@.len() - k,
                    {
                        let e = t[k];
                        if !check_color(e) {
                            proof {
                                assert(!spec_palette_ok(t@)) by {
                                    assert(!spec_color_ok(t@[k as int]));
                                }
                                assert(bands@.skip(i as int).len() > 0);
                                assert(bands@.skip(i as int)[0].palette_index);
                                assert(bands@.skip(i as int)[0].color_table matches Some(tv)
                                    && tv@ == t@);
                                assert(spec_band_scan(bands@.skip(i as int)) == Err::<
                                    Seq<ColorEntry>,
                                    SourceError,
                                >(SourceError::InvalidPalette));
                            }
                            return Err(SourceError::InvalidPalette);
                        }
                        out.push(e);
                        proof {
                            assert(out@ =~= t@.take(k + 1));
                        }
                        k = k + 1;
                    }
                    proof {
                        assert(t@.take(t@.len() as int) == t@);
                        assert(spec_palette_ok(t@));
                    }
                    return Ok(out);
                },
                None => {
                    return Err(SourceError::PaletteNotFound);
                },
            }
        }
        i = i + 1;
    }
    proof {
        assert(bands@.skip(bands@.len() as int) =~= Seq::<BandInfo>::empty());
    }
    Err(SourceError::RasterNotFound)
}

/// Induction behind the coalescing law, generalized over the read request
/// already taken up when the drain starts.
proof fn lemma_drain_reads(reqs: Seq<Request>, read: Option<ImagePart>)
    requires
        reqs.len() > 0,
        forall|i: int| 0 <= i < reqs.len() ==> (#[trigger] reqs[i]) is Read,
    ensures
        spec_drain(reqs, read).0 == Some(reqs.last()->Read_0),
        spec_drain(reqs, read).1 == (match read {
            Some(q) => seq![q],
            None => Seq::<ImagePart>::empty(),
        }) + reqs.drop_last().map_values(|r: Request| r->Read_0),
        !spec_drain(reqs, read).2,
    decreases reqs.len(),
{
    let f = |r: Request| r->Read_0;
    let emitted = (match read {
        Some(q) => seq![q],
        None => Seq::<ImagePart>::empty(),
    });
    let p0 = reqs[0]->Read_0;
    if reqs.len() == 1 {
        let rest = spec_drain(reqs.drop_first(), Some(p0));
        assert(reqs.drop_first().len() == 0);
        assert(rest.0 == Some(p0) && rest.1 == Seq::<ImagePart>::empty() && !rest.2);
        assert(reqs.last() == reqs[0]);
        assert(spec_drain(reqs, read).0 == Some(p0));
        assert(spec_drain(reqs, read).1 =~= emitted + reqs.drop_last().map_values(f));
    } else {
        let tail = reqs.drop_first();
        assert forall|i: int| 0 <= i < tail.len() implies (#[trigger] tail[i]) is Read by {
            assert(tail[i] == reqs[i + 1]);
        }
        lemma_drain_reads(tail, Some(p0));
        assert(reqs.last() == tail.last());
        assert(reqs.drop_last().map_values(f) =~= seq![p0] + tail.drop_last().map_values(f))
            by {
            assert forall|i: int| 0 <= i < reqs.drop_last().len() implies
                reqs.drop_last().map_values(f)[i] == (seq![p0] + tail.drop_last().map_values(
                f,
            ))[i] by {
                if i > 0 {
                    assert(reqs.drop_last()[i] == tail.drop_last()[i - 1]);
                }
            }
        }
        assert(spec_drain(reqs, read).1 =~= emitted + reqs.drop_last().map_values(f));
    }
}

/// Coalescing: draining a backlog of read requests keeps exactly the most
/// recent one as the work item and cancels every earlier one, in
/// submission order; no exit is observed.
pub proof fn lemma_drain_coalesces(reqs: Seq<Request>)
    requires
        reqs.len() > 0,
        forall|i: int| 0 <= i < reqs.len() ==> (#[trigger] reqs[i]) is Read,
    ensures
        spec_drain(reqs, None::<ImagePart>).0 == Some(reqs.last()->Read_0),
        spec_drain(reqs, None::<ImagePart>).1 == reqs.drop_last().map_values(
            |r: Request| r->Read_0,
        ),
        !spec_drain(reqs, None::<ImagePart>).2,
{
    lemma_drain_reads(reqs, None::<ImagePart>);
    assert(Seq::<ImagePart>::empty() + reqs.drop_last().map_values(|r: Request| r->Read_0)
        =~= reqs.drop_last().map_values(|r: Request| r->Read_0));
}

/// Round trip: a pixel position inside the chart, converted to the
/// projected frame and back, is returned exactly.
pub proof fn lemma_px_round_trip(t: Transform, p: Pos)
    requires
        t.wf(),
        t.spec_px_size().spec_contains(p),
    ensures
        t.spec_chart_to_px(t.spec_px_to_chart(p)) == p,
{
    assert(-(MAX_SCALE * MAX_DIM) <= t.spec_scale_x() * p.x <= MAX_SCALE * MAX_DIM)
        by (nonlinear_arith)
        requires
            0 <= p.x <= MAX_DIM,
            -MAX_SCALE <= t.spec_scale_x() <= MAX_SCALE,
    ;
    assert(-(MAX_SCALE * MAX_DIM) <= t.spec_scale_y() * p.y <= MAX_SCALE * MAX_DIM)
        by (nonlinear_arith)
        requires
            0 <= p.y <= MAX_DIM,
            -MAX_SCALE <= t.spec_scale_y() <= MAX_SCALE,
    ;
    crate::geom::lemma_floor_div_exact(p.x as int, t.spec_scale_x() as int);
    crate::geom::lemma_floor_div_exact(p.y as int, t.spec_scale_y() as int);
}

} // verus!
