//! Airport lookup over a National Airspace System Resources base table.
//!
//! [`APTSource`] answers point/radius ("nearby"), identifier and text
//! queries over a read-only snapshot of airport records, using the same
//! request/reply pattern as the chart worker.  Queries are answered in
//! order and are never superseded; only an exit request stops the worker.

use vstd::prelude::*;

use crate::geom::Coord;
use crate::text::{
    bytes_eq, contains_bytes, contains_seq, eq_ignore_ascii_case_bytes, str_bytes, to_upper,
    upper_bytes,
};
use vstd::string::StringSliceAdditionalSpecFns;

verus! {

/// The site classification of a feature record.
#[derive(Clone, Copy, Debug, Eq, PartialEq, Structural)]
pub enum SiteType {
    Airport,
    Balloon,
    Seaplane,
    Glider,
    Helicopter,
    Ultralight,
}

/// One airport record: identifier, display name, geodetic location in
/// tenths of a milliarcsecond, site classification, and whether the field
/// is private.
#[derive(Debug)]
pub struct APTInfo {
    pub id: String,
    pub name: String,
    pub loc: Coord,
    pub site_type: SiteType,
    pub private: bool,
}

/// What a record says, with its text as bytes: the identity the queries
/// work with.
pub open spec fn spec_info(a: APTInfo) -> (Seq<u8>, Seq<u8>, Coord, SiteType, bool) {
    (str_bytes(a.id@), str_bytes(a.name@), a.loc, a.site_type, a.private)
}

impl APTInfo {
    /// Build a record from already-parsed parts.
    pub fn new(id: String, name: String, loc: Coord, site_type: SiteType, private: bool) -> (r:
        APTInfo)
        ensures
            r.id == id && r.name == name && r.loc == loc && r.site_type == site_type && r.private
                == private,
    {
        APTInfo { id, name, loc, site_type, private }
    }

    /// A record the display side filters out: a private helicopter site.
    pub fn non_public_heliport(&self) -> (r: bool)
        ensures
            r == (self.private && self.site_type == SiteType::Helicopter),
    {
        self.private && matches!(self.site_type, SiteType::Helicopter)
    }
}

/// A record with the same identity, field by field.
fn clone_info(a: &APTInfo) -> (r: APTInfo)
    ensures
        spec_info(r) == spec_info(*a),
{
    APTInfo {
        id: a.id.clone(),
        name: a.name.clone(),
        loc: a.loc,
        site_type: a.site_type,
        private: a.private,
    }
}

/// The site classification named by a one-letter code, if any.
pub open spec fn spec_site_type(b: Seq<u8>) -> Option<SiteType> {
    if b == "A".spec_bytes() {
        Some(SiteType::Airport)
    } else if b == "B".spec_bytes() {
        Some(SiteType::Balloon)
    } else if b == "C".spec_bytes() {
        Some(SiteType::Seaplane)
    } else if b == "G".spec_bytes() {
        Some(SiteType::Glider)
    } else if b == "H".spec_bytes() {
        Some(SiteType::Helicopter)
    } else if b == "U".spec_bytes() {
        Some(SiteType::Ultralight)
    } else {
        None
    }
}

/// Map a site-type code from the base table to its classification.
pub fn get_site_type(code: &str) -> (r: Option<SiteType>)
    ensures
        r == spec_site_type(code.spec_bytes()),
{
    let b = code.as_bytes();
    if bytes_eq(b, "A".as_bytes()) {
        Some(SiteType::Airport)
    } else if bytes_eq(b, "B".as_bytes()) {
        Some(SiteType::Balloon)
    } else if bytes_eq(b, "C".as_bytes()) {
        Some(SiteType::Seaplane)
    } else if bytes_eq(b, "G".as_bytes()) {
        Some(SiteType::Glider)
    } else if bytes_eq(b, "H".as_bytes()) {
        Some(SiteType::Helicopter)
    } else if bytes_eq(b, "U".as_bytes()) {
        Some(SiteType::Ultralight)
    } else {
        None
    }
}

/// A facility-use code marks a private field exactly when it reads "PR".
pub fn is_private_use(code: &str) -> (r: bool)
    ensures
        r == (code.spec_bytes() == "PR".spec_bytes()),
{
    bytes_eq(code.as_bytes(), "PR".as_bytes())
}

/// Degrees, minutes and fractional seconds folded into one coordinate
/// magnitude in tenths of a milliarcsecond; the hemisphere's sign is
/// applied afterwards to the whole value.
pub fn to_dec_deg(deg: i64, min: i64, sec_e4: i64) -> (r: i64)
    requires
        0 <= deg <= 360,
        0 <= min < 60,
        0 <= sec_e4 < 600_000,
    ensures
        r == deg * 36_000_000 + min * 600_000 + sec_e4,
{
    deg * 36_000_000 + min * 600_000 + sec_e4
}

/// Whether a hemisphere field names the southern or western half, which
/// negates the degrees, compared without regard to ASCII case.
fn hemi_negates(hemis: &str, mark: &str) -> (r: bool)
    ensures
        r == (upper_bytes(hemis.spec_bytes()) == upper_bytes(mark.spec_bytes())),
{
    eq_ignore_ascii_case_bytes(hemis.as_bytes(), mark.as_bytes())
}

/// The geodetic location a record's latitude and longitude fields encode:
/// each degree-minute-second value folded into tenths of a milliarcsecond
/// and negated as a whole for the southern and western hemispheres.
pub fn get_coord(
    lat_deg: i64,
    lat_min: i64,
    lat_sec_e4: i64,
    lat_hemis: &str,
    lon_deg: i64,
    lon_min: i64,
    lon_sec_e4: i64,
    lon_hemis: &str,
) -> (r: Coord)
    requires
        0 <= lat_deg <= 90,
        0 <= lat_min < 60,
        0 <= lat_sec_e4 < 600_000,
        0 <= lon_deg <= 180,
        0 <= lon_min < 60,
        0 <= lon_sec_e4 < 600_000,
    ensures
        r.y == (if upper_bytes(lat_hemis.spec_bytes()) == upper_bytes("S".spec_bytes()) {
            -(lat_deg * 36_000_000 + lat_min * 600_000 + lat_sec_e4)
        } else {
            lat_deg * 36_000_000 + lat_min * 600_000 + lat_sec_e4
        }),
        r.x == (if upper_bytes(lon_hemis.spec_bytes()) == upper_bytes("W".spec_bytes()) {
            -(lon_deg * 36_000_000 + lon_min * 600_000 + lon_sec_e4)
        } else {
            lon_deg * 36_000_000 + lon_min * 600_000 + lon_sec_e4
        }),
{
    let ym = to_dec_deg(lat_deg, lat_min, lat_sec_e4);
    let xm = to_dec_deg(lon_deg, lon_min, lon_sec_e4);
    let y = if hemi_negates(lat_hemis, "S") {
        -ym
    } else {
        ym
    };
    let x = if hemi_negates(lon_hemis, "W") {
        -xm
    } else {
        xm
    };
    Coord { x, y }
}

/// Whether a record is within `dist` of `q` in the projected plane:
/// squared planar distance strictly below the squared radius.
pub open spec fn spec_within(p: Coord, q: Coord, dist: i64) -> bool {
    (p.x - q.x) * (p.x - q.x) + (p.y - q.y) * (p.y - q.y) < dist * dist
}

/// Whether a record matches a text search: identifier equal to the
/// upper-cased term, or name containing it.
pub open spec fn spec_search_match(a: APTInfo, term_u: Seq<u8>) -> bool {
    ||| str_bytes(a.id@) == term_u
    ||| contains_seq(str_bytes(a.name@), term_u)
}

/// The index of the first record from `i` on whose identifier equals the
/// upper-cased lookup term, as a sequence of at most one index.
pub open spec fn spec_airport_idx(records: Seq<APTInfo>, id_u: Seq<u8>, i: int) -> Seq<int>
    decreases records.len() - i,
{
    if i < 0 || i >= records.len() {
        Seq::<int>::empty()
    } else if str_bytes(records[i].id@) == id_u {
        seq![i]
    } else {
        spec_airport_idx(records, id_u, i + 1)
    }
}

/// The indices, from `i` on and in order, of the records matching a text
/// search.
pub open spec fn spec_search_idx(records: Seq<APTInfo>, term_u: Seq<u8>, i: int) -> Seq<int>
    decreases records.len() - i,
{
    if i < 0 || i >= records.len() {
        Seq::<int>::empty()
    } else if spec_search_match(records[i], term_u) {
        seq![i] + spec_search_idx(records, term_u, i + 1)
    } else {
        spec_search_idx(records, term_u, i + 1)
    }
}

/// The indices, from `i` on and in order, of the records whose projected
/// position is known and within `dist` of `q`.  A record whose position
/// could not be projected never matches.
pub open spec fn spec_nearby_idx(proj: Seq<Option<Coord>>, q: Coord, dist: i64, i: int) -> Seq<
    int,
>
    decreases proj.len() - i,
{
    if i < 0 || i >= proj.len() {
        Seq::<int>::empty()
    } else if proj[i] matches Some(p) && spec_within(p, q, dist) {
        seq![i] + spec_nearby_idx(proj, q, dist, i + 1)
    } else {
        spec_nearby_idx(proj, q, dist, i + 1)
    }
}

/// Whether the squared planar distance from `p` to `q` is strictly below
/// the squared radius.
fn within(p: Coord, q: Coord, dist: i64) -> (r: bool)
    ensures
        r == spec_within(p, q, dist),
{
    let dx: i128 = (p.x as i128) - (q.x as i128);
    let dy: i128 = (p.y as i128) - (q.y as i128);
    let d: i128 = dist as i128;
    let adx: i128 = if dx < 0 {
        -dx
    } else {
        dx
    };
    let ady: i128 = if dy < 0 {
        -dy
    } else {
        dy
    };
    let ad: i128 = if d < 0 {
        -d
    } else {
        d
    };
    proof {
        assert(dx * dx == adx * adx) by (nonlinear_arith)
            requires
                adx == dx || adx == -dx,
        ;
        assert(dy * dy == ady * ady) by (nonlinear_arith)
            requires
                ady == dy || ady == -dy,
        ;
        assert(d * d == ad * ad) by (nonlinear_arith)
            requires
                ad == d || ad == -d,
        ;
        assert(dx * dx >= 0 && dy * dy >= 0) by (nonlinear_arith);
    }
    if adx >= ad || ady >= ad {
        proof {
            if adx >= ad {
                assert(adx * adx >= ad * ad) by (nonlinear_arith)
                    requires
                        0 <= ad <= adx,
                ;
            } else {
                assert(ady * ady >= ad * ad) by (nonlinear_arith)
                    requires
                        0 <= ad <= ady,
                ;
            }
        }
        false
    } else {
        proof {
            assert(adx * adx < ad * ad) by (nonlinear_arith)
                requires
                    0 <= adx < ad,
            ;
            assert(ady * ady < ad * ad) by (nonlinear_arith)
                requires
                    0 <= ady < ad,
            ;
            assert(ad * ad <= 0x4000_0000_0000_0000_0000_0000_0000_0000int) by (nonlinear_arith)
                requires
                    0 <= ad <= 0x8000_0000_0000_0000int,
            ;
        }
        let s: i128 = dx * dx + dy * dy;
        let dd: i128 = d * d;
        s < dd
    }
}

/// The records whose identifier equals the lookup term, upper-cased: the
/// first such record, or none.
#[verifier::loop_isolation(false)]
fn lookup_airport(records: &Vec<APTInfo>, id: &str) -> (r: Vec<APTInfo>)
    ensures
        ({
            let idxs = spec_airport_idx(records@, upper_bytes(id.spec_bytes()), 0);
            &&& r@.len() == idxs.len()
            &&& forall|k: int|
                0 <= k < idxs.len() ==> spec_info(#[trigger] r@[k]) == spec_info(
                    records@[idxs[k]],
                )
        }),
{
    let id_u = to_upper(id.as_bytes());
    let mut i: usize = 0;
    while i < records.len()
        invariant
            i <= records@.len(),
            spec_airport_idx(records@, id_u@, 0) == spec_airport_idx(records@, id_u@, i as int),
        decreases records@.len() - i,
    {
        let rid = records[i].id.as_str().as_bytes();
        if bytes_eq(rid, id_u.as_slice()) {
            let mut out: Vec<APTInfo> = Vec::new();
            out.push(clone_info(&records[i]));
            proof {
                assert(spec_airport_idx(records@, id_u@, i as int) == seq![i as int]);
            }
            return out;
        }
        i = i + 1;
    }
    Vec::new()
}

/// The records matching a text search, in table order.
#[verifier::loop_isolation(false)]
fn run_search(records: &Vec<APTInfo>, term: &str) -> (r: Vec<APTInfo>)
    ensures
        ({
            let idxs = spec_search_idx(records@, upper_bytes(term.spec_bytes()), 0);
            &&& r@.len() == idxs.len()
            &&& forall|k: int|
                0 <= k < idxs.len() ==> spec_info(#[trigger] r@[k]) == spec_info(
                    records@[idxs[k]],
                )
        }),
{
    let term_u = to_upper(term.as_bytes());
    let ghost idxs_full = spec_search_idx(records@, term_u@, 0);
    let ghost mut sel: Seq<int> = Seq::empty();
    let mut out: Vec<APTInfo> = Vec::new();
    let mut i: usize = 0;
    proof {
        assert(sel + spec_search_idx(records@, term_u@, 0) =~= idxs_full);
    }
    while i < records.len()
        invariant
            i <= records@.len(),
            sel + spec_search_idx(records@, term_u@, i as int) == idxs_full,
            out@.len() == sel.len(),
            forall|k: int|
                0 <= k < sel.len() ==> spec_info(#[trigger] out@[k]) == spec_info(
                    records@[sel[k]],
                ),
        decreases records@.len() - i,
    {
        let rid = records[i].id.as_str().as_bytes();
        let hit = if bytes_eq(rid, term_u.as_slice()) {
            true
        } else {
            let rname = records[i].name.as_str().as_bytes();
            contains_bytes(rname, term_u.as_slice())
        };
        if hit {
            out.push(clone_info(&records[i]));
            proof {
                sel = sel + seq![i as int];
                assert(sel + spec_search_idx(records@, term_u@, i + 1) =~= idxs_full);
            }
        }
        i = i + 1;
    }
    proof {
        assert(sel =~= idxs_full);
    }
    out
}

/// The records whose projected position lies within the search radius, in
/// table order.
#[verifier::loop_isolation(false)]
fn run_nearby(records: &Vec<APTInfo>, proj: &Vec<Option<Coord>>, q: Coord, dist: i64) -> (r: Vec<
    APTInfo,
>)
    requires
        proj@.len() == records@.len(),
    ensures
        ({
            let idxs = spec_nearby_idx(proj@, q, dist, 0);
            &&& r@.len() == idxs.len()
            &&& forall|k: int|
                0 <= k < idxs.len() ==> spec_info(#[trigger] r@[k]) == spec_info(
                    records@[idxs[k]],
                )
        }),
{
    let ghost idxs_full = spec_nearby_idx(proj@, q, dist, 0);
    let ghost mut sel: Seq<int> = Seq::empty();
    let mut out: Vec<APTInfo> = Vec::new();
    let mut i: usize = 0;
    proof {
        assert(sel + spec_nearby_idx(proj@, q, dist, 0) =~= idxs_full);
        assert(forall|k: int|
            0 <= k < idxs_full.len() ==> 0 <= #[trigger] idxs_full[k] < proj@.len()) by {
            lemma_nearby_idx_range(proj@, q, dist, 0);
        }
    }
    while i < proj.len()
        invariant
            i <= proj@.len(),
            sel + spec_nearby_idx(proj@, q, dist, i as int) == idxs_full,
            out@.len() == sel.len(),
            forall|k: int|
                0 <= k < sel.len() ==> 0 <= #[trigger] sel[k] < records@.len(),
            forall|k: int|
                0 <= k < sel.len() ==> spec_info(#[trigger] out@[k]) == spec_info(
                    records@[sel[k]],
                ),
        decreases proj@.len() - i,
    {
        let hit = match proj[i] {
            Some(p) => within(p, q, dist),
            None => false,
        };
        if hit {
            out.push(clone_info(&records[i]));
            proof {
                sel = sel + seq![i as int];
                assert(sel + spec_nearby_idx(proj@, q, dist, i + 1) =~= idxs_full);
            }
        }
        i = i + 1;
    }
    proof {
        assert(sel =~= idxs_full);
    }
    out
}

/// The records that remain once private helicopter sites are dropped:
/// the display side's filter policy, applied after every query.
pub open spec fn spec_public_idx(records: Seq<APTInfo>, i: int) -> Seq<int>
    decreases records.len() - i,
{
    if i < 0 || i >= records.len() {
        Seq::<int>::empty()
    } else if !(records[i].private && records[i].site_type == SiteType::Helicopter) {
        seq![i] + spec_public_idx(records, i + 1)
    } else {
        spec_public_idx(records, i + 1)
    }
}

/// Drop private helicopter sites from a query answer, keeping the rest
/// in order.
#[verifier::loop_isolation(false)]
pub fn filter_non_public_heliports(infos: Vec<APTInfo>) -> (r: Vec<APTInfo>)
    ensures
        ({
            let idxs = spec_public_idx(infos@, 0);
            &&& r@.len() == idxs.len()
            &&& forall|k: int|
                0 <= k < idxs.len() ==> spec_info(#[trigger] r@[k]) == spec_info(
                    infos@[idxs[k]],
                )
        }),
{
    let ghost idxs_full = spec_public_idx(infos@, 0);
    let ghost mut sel: Seq<int> = Seq::empty();
    let mut out: Vec<APTInfo> = Vec::new();
    let mut i: usize = 0;
    proof {
        assert(sel + spec_public_idx(infos@, 0) =~= idxs_full);
    }
    while i < infos.len()
        invariant
            i <= infos@.len(),
            sel + spec_public_idx(infos@, i as int) == idxs_full,
            out@.len() == sel.len(),
            forall|k: int|
                0 <= k < sel.len() ==> spec_info(#[trigger] out@[k]) == spec_info(
                    infos@[sel[k]],
                ),
        decreases infos@.len() - i,
    {
        if !infos[i].non_public_heliport() {
            out.push(clone_info(&infos[i]));
            proof {
                sel = sel + seq![i as int];
                assert(sel + spec_public_idx(infos@, i + 1) =~= idxs_full);
            }
        }
        i = i + 1;
    }
    proof {
        assert(sel =~= idxs_full);
    }
    out
}

/// A request to the airport lookup worker.
#[derive(Debug)]
pub enum APTRequest {
    /// Adopt the chart's projected frame: each record's position in it,
    /// in record order, as computed by the raster backend; a record whose
    /// position could not be projected carries none.
    SpatialRef(Vec<Option<Coord>>),
    /// Look a single airport up by its identifier.
    Airport(String),
    /// All records within a radius (in projected units) of a point.
    Nearby(Coord, i64),
    /// All records matching an identifier or name search.
    Search(String),
    /// Stop working; sent exactly once when the source closes.
    Exit,
}

/// An answer from the airport lookup worker.
#[derive(Debug)]
pub enum APTReply {
    /// The records a query matched, in table order.
    Airport(Vec<APTInfo>),
}

/// A reply carries exactly the records at the given table indices, by
/// identity.
pub open spec fn spec_reply_matches(rep: APTReply, records: Seq<APTInfo>, idxs: Seq<int>) -> bool {
    match rep {
        APTReply::Airport(v) => {
            &&& v@.len() == idxs.len()
            &&& forall|k: int|
                0 <= k < idxs.len() ==> spec_info(#[trigger] v@[k]) == spec_info(
                    records[idxs[k]],
                )
        },
    }
}

/// What one worker pass over the queued requests does: the projected
/// frame afterwards, the index list answering each query in order, and
/// whether the exit request was observed (which stops the worker at
/// once).
pub open spec fn spec_apt_service(
    records: Seq<APTInfo>,
    proj: Option<Seq<Option<Coord>>>,
    reqs: Seq<APTRequest>,
) -> (Option<Seq<Option<Coord>>>, Seq<Seq<int>>, bool)
    decreases reqs.len(),
{
    if reqs.len() == 0 {
        (proj, Seq::<Seq<int>>::empty(), false)
    } else {
        match reqs[0] {
            APTRequest::SpatialRef(pv) => spec_apt_service(
                records,
                if pv@.len() == records.len() {
                    Some(pv@)
                } else {
                    proj
                },
                reqs.drop_first(),
            ),
            APTRequest::Airport(id) => {
                let rest = spec_apt_service(records, proj, reqs.drop_first());
                (
                    rest.0,
                    seq![spec_airport_idx(records, upper_bytes(str_bytes(id@)), 0)] + rest.1,
                    rest.2,
                )
            },
            APTRequest::Nearby(c, dist) => {
                let lst = match proj {
                    Some(pv) => spec_nearby_idx(pv, c, dist, 0),
                    None => Seq::<int>::empty(),
                };
                let rest = spec_apt_service(records, proj, reqs.drop_first());
                (rest.0, seq![lst] + rest.1, rest.2)
            },
            APTRequest::Search(t) => {
                let rest = spec_apt_service(records, proj, reqs.drop_first());
                (
                    rest.0,
                    seq![spec_search_idx(records, upper_bytes(str_bytes(t@)), 0)] + rest.1,
                    rest.2,
                )
            },
            APTRequest::Exit => (proj, Seq::<Seq<int>>::empty(), true),
        }
    }
}

/// Airport lookup source: a read-only snapshot of the base table, the
/// per-record projected positions once a spatial reference is set, and
/// the request/reply bookkeeping of the lookup worker.
pub struct APTSource {
    records: Vec<APTInfo>,
    projected: Option<Vec<Option<Coord>>>,
    pending: Vec<APTRequest>,
    replies: Vec<APTReply>,
    exited: bool,
}

impl APTSource {
    /// The loaded records.
    pub closed spec fn spec_records(self) -> Seq<APTInfo> {
        self.records@
    }

    /// The per-record projected positions, if a spatial reference is set.
    pub closed spec fn spec_proj(self) -> Option<Seq<Option<Coord>>> {
        match self.projected {
            Some(v) => Some(v@),
            None => None,
        }
    }

    /// Requests submitted and not yet serviced, oldest first.
    pub closed spec fn spec_pending(self) -> Seq<APTRequest> {
        self.pending@
    }

    /// Replies produced and not yet collected, oldest first.
    pub closed spec fn spec_replies(self) -> Seq<APTReply> {
        self.replies@
    }

    /// Whether the worker has observed the exit request.
    pub closed spec fn spec_exited(self) -> bool {
        self.exited
    }

    /// The invariant every source satisfies: a stored projection lists
    /// one position per record.
    pub closed spec fn wf(self) -> bool {
        self.spec_proj() matches Some(pv) ==> pv.len() == self.records@.len()
    }

    /// Open an airport source over a loaded snapshot of the base table.
    pub fn open(records: Vec<APTInfo>) -> (r: APTSource)
        ensures
            r.wf(),
            r.spec_records() == records@,
            r.spec_proj() is None,
            r.spec_pending() == Seq::<APTRequest>::empty(),
            r.spec_replies() == Seq::<APTReply>::empty(),
            !r.spec_exited(),
    {
        APTSource {
            records,
            projected: None,
            pending: Vec::new(),
            replies: Vec::new(),
            exited: false,
        }
    }

    /// Adopt the chart's projected frame by supplying each record's
    /// position in it, in record order; a record whose position could not
    /// be projected carries none and is skipped by nearby queries.  The
    /// projection itself is the raster backend's work; a list that does
    /// not match the table is a failed transform and leaves the previous
    /// frame in place.
    pub fn set_spatial_ref(&mut self, projected: Vec<Option<Coord>>)
        ensures
            final(self).spec_pending() == old(self).spec_pending().push(
                APTRequest::SpatialRef(projected),
            ),
            final(self).spec_records() == old(self).spec_records(),
            final(self).spec_proj() == old(self).spec_proj(),
            final(self).spec_replies() == old(self).spec_replies(),
            final(self).spec_exited() == old(self).spec_exited(),
            old(self).wf() ==> final(self).wf(),
    {
        self.pending.push(APTRequest::SpatialRef(projected));
    }

    /// Lookup airport information using its identifier.
    pub fn airport(&mut self, id: String)
        ensures
            final(self).spec_pending() == old(self).spec_pending().push(APTRequest::Airport(id)),
            final(self).spec_records() == old(self).spec_records(),
            final(self).spec_proj() == old(self).spec_proj(),
            final(self).spec_replies() == old(self).spec_replies(),
            final(self).spec_exited() == old(self).spec_exited(),
            old(self).wf() ==> final(self).wf(),
    {
        self.pending.push(APTRequest::Airport(id));
    }

    /// Request nearby airports: all records within `dist` projected units
    /// of `coord`.
    pub fn nearby(&mut self, coord: Coord, dist: i64)
        ensures
            final(self).spec_pending() == old(self).spec_pending().push(
                APTRequest::Nearby(coord, dist),
            ),
            final(self).spec_records() == old(self).spec_records(),
            final(self).spec_proj() == old(self).spec_proj(),
            final(self).spec_replies() == old(self).spec_replies(),
            final(self).spec_exited() == old(self).spec_exited(),
            old(self).wf() ==> final(self).wf(),
    {
        self.pending.push(APTRequest::Nearby(coord, dist));
    }

    /// Find airports that match the text (identifier or name).
    pub fn search(&mut self, term: String)
        ensures
            final(self).spec_pending() == old(self).spec_pending().push(APTRequest::Search(term)),
            final(self).spec_records() == old(self).spec_records(),
            final(self).spec_proj() == old(self).spec_proj(),
            final(self).spec_replies() == old(self).spec_replies(),
            final(self).spec_exited() == old(self).spec_exited(),
            old(self).wf() ==> final(self).wf(),
    {
        self.pending.push(APTRequest::Search(term));
    }

    /// Submit the exit request; sent exactly once when the source closes.
    pub fn close(&mut self)
        ensures
            final(self).spec_pending() == old(self).spec_pending().push(APTRequest::Exit),
            final(self).spec_records() == old(self).spec_records(),
            final(self).spec_proj() == old(self).spec_proj(),
            final(self).spec_replies() == old(self).spec_replies(),
            final(self).spec_exited() == old(self).spec_exited(),
            old(self).wf() ==> final(self).wf(),
    {
        self.pending.push(APTRequest::Exit);
    }

    /// Whether the worker has observed the exit request.
    pub fn is_exited(&self) -> (r: bool)
        ensures
            r == self.spec_exited(),
    {
        self.exited
    }

    /// Get the next reply if available.
    pub fn get_next_reply(&mut self) -> (r: Option<APTReply>)
        ensures
            final(self).spec_records() == old(self).spec_records(),
            final(self).spec_proj() == old(self).spec_proj(),
            final(self).spec_pending() == old(self).spec_pending(),
            final(self).spec_exited() == old(self).spec_exited(),
            old(self).wf() ==> final(self).wf(),
            match r {
                None => old(self).spec_replies().len() == 0 && final(self).spec_replies() == old(
                    self,
                ).spec_replies(),
                Some(rep) => old(self).spec_replies().len() > 0 && rep == old(
                    self,
                ).spec_replies()[0] && final(self).spec_replies() == old(
                    self,
                ).spec_replies().drop_first(),
            },
    {
        if self.replies.len() > 0 {
            let rep = self.replies.remove(0);
            proof {
                assert(self.replies@ =~= old(self).spec_replies().drop_first());
            }
            Some(rep)
        } else {
            None
        }
    }

    /// The worker's pass: answer every queued request in order.  Queries
    /// are never superseded; an exit request stops the worker for good,
    /// and nothing after it is processed.
    #[verifier::loop_isolation(false)]
    pub fn service(&mut self)
        requires
            old(self).wf(),
        ensures
            final(self).wf(),
            final(self).spec_records() == old(self).spec_records(),
            final(self).spec_pending() == Seq::<APTRequest>::empty(),
            old(self).spec_exited() ==> ({
                &&& final(self).spec_exited()
                &&& final(self).spec_replies() == old(self).spec_replies()
                &&& final(self).spec_proj() == old(self).spec_proj()
            }),
            !old(self).spec_exited() ==> ({
                let full = spec_apt_service(
                    old(self).spec_records(),
                    old(self).spec_proj(),
                    old(self).spec_pending(),
                );
                &&& final(self).spec_proj() == full.0
                &&& final(self).spec_exited() == full.2
                &&& final(self).spec_replies().len() == old(self).spec_replies().len()
                    + full.1.len()
                &&& final(self).spec_replies().take(old(self).spec_replies().len() as int) == old(
                    self,
                ).spec_replies()
                &&& forall|k: int|
                    0 <= k < full.1.len() ==> spec_reply_matches(
                        #[trigger] final(self).spec_replies()[old(self).spec_replies().len() + k],
                        old(self).spec_records(),
                        full.1[k],
                    )
            }),
    {
        if self.exited {
            self.pending.clear();
            return ;
        }
        let ghost rec0 = self.records@;
        let ghost replies0 = self.replies@;
        let ghost full = spec_apt_service(rec0, self.spec_proj(), self.pending@);
        let ghost mut emitted: Seq<Seq<int>> = Seq::empty();
        proof {
            assert(emitted + full.1 =~= full.1);
            assert(self.replies@.take(replies0.len() as int) =~= replies0);
        }
        while self.pending.len() > 0 && !self.exited
            invariant
                self.records@ == rec0,
                self.wf(),
                self.replies@.len() == replies0.len() + emitted.len(),
                self.replies@.take(replies0.len() as int) == replies0,
                forall|k: int|
                    0 <= k < emitted.len() ==> spec_reply_matches(
                        #[trigger] self.replies@[replies0.len() + k],
                        rec0,
                        emitted[k],
                    ),
                !self.exited ==> ({
                    let rest = spec_apt_service(rec0, self.spec_proj(), self.pending@);
                    &&& full.0 == rest.0
                    &&& full.1 == emitted + rest.1
                    &&& full.2 == rest.2
                }),
                self.exited ==> (full.1 == emitted && full.2 && full.0 == self.spec_proj()),
            decreases self.pending@.len(),
        {
            let ghost rem0 = self.pending@;
            let ghost proj_at = self.spec_proj();
            let req = self.pending.remove(0);
            proof {
                assert(req == rem0[0]);
                assert(self.pending@ =~= rem0.drop_first());
            }
            match req {
                APTRequest::SpatialRef(pv) => {
                    if pv.len() == self.records.len() {
                        self.projected = Some(pv);
                    }
                },
                APTRequest::Airport(id) => {
                    let ghost lst = spec_airport_idx(rec0, upper_bytes(str_bytes(id@)), 0);
                    let res = lookup_airport(&self.records, id.as_str());
                    self.replies.push(APTReply::Airport(res));
                    proof {
                        emitted = emitted + seq![lst];
                        assert(self.replies@.take(replies0.len() as int) =~= replies0);
                        assert(emitted + spec_apt_service(rec0, proj_at, rem0.drop_first()).1
                            =~= full.1);
                    }
                },
                APTRequest::Nearby(c, dist) => {
                    let ghost lst = (match proj_at {
                        Some(pv) => spec_nearby_idx(pv, c, dist, 0),
                        None => Seq::<int>::empty(),
                    });
                    let res = match &self.projected {
                        Some(pv) => run_nearby(&self.records, pv, c, dist),
                        None => Vec::new(),
                    };
                    self.replies.push(APTReply::Airport(res));
                    proof {
                        emitted = emitted + seq![lst];
                        assert(self.replies@.take(replies0.len() as int) =~= replies0);
                        assert(emitted + spec_apt_service(rec0, proj_at, rem0.drop_first()).1
                            =~= full.1);
                    }
                },
                APTRequest::Search(t) => {
                    let ghost lst = spec_search_idx(rec0, upper_bytes(str_bytes(t@)), 0);
                    let res = run_search(&self.records, t.as_str());
                    self.replies.push(APTReply::Airport(res));
                    proof {
                        emitted = emitted + seq![lst];
                        assert(self.replies@.take(replies0.len() as int) =~= replies0);
                        assert(emitted + spec_apt_service(rec0, proj_at, rem0.drop_first()).1
                            =~= full.1);
                    }
                },
                APTRequest::Exit => {
                    self.exited = true;
                    proof {
                        assert(emitted + Seq::<Seq<int>>::empty() =~= emitted);
                    }
                },
            }
        }
        self.pending.clear();
        proof {
            if !self.exited {
                assert(emitted + Seq::<Seq<int>>::empty() =~= emitted);
            }
        }
    }
}

/// Every index a nearby scan selects is a valid record index.
proof fn lemma_nearby_idx_range(proj: Seq<Option<Coord>>, q: Coord, dist: i64, i: int)
    ensures
        forall|k: int|
            0 <= k < spec_nearby_idx(proj, q, dist, i).len() ==> i <= #[trigger] spec_nearby_idx(
                proj,
                q,
                dist,
                i,
            )[k] < proj.len(),
    decreases proj.len() - i,
{
    if i < 0 || i >= proj.len() {
    } else {
        lemma_nearby_idx_range(proj, q, dist, i + 1);
        let cur = spec_nearby_idx(proj, q, dist, i);
        let rest = spec_nearby_idx(proj, q, dist, i + 1);
        if proj[i] matches Some(p) && spec_within(p, q, dist) {
            assert forall|k: int| 0 <= k < cur.len() implies i <= #[trigger] cur[k]
                < proj.len() by {
                if k > 0 {
                    assert(cur[k] == rest[k - 1]);
                }
            }
        }
    }
}

} // verus!
