use chartview::geom::Coord;
use chartview::nasr::{
    filter_non_public_heliports, get_coord, get_site_type, is_private_use, to_dec_deg, APTInfo,
    APTReply, APTSource, SiteType,
};

fn rec(id: &str, name: &str, site_type: SiteType, private: bool) -> APTInfo {
    APTInfo::new(
        id.to_string(),
        name.to_string(),
        Coord { x: 0, y: 0 },
        site_type,
        private,
    )
}

fn sample() -> Vec<APTInfo> {
    vec![
        rec("KSFO", "SAN FRANCISCO INTL", SiteType::Airport, false),
        rec("KOAK", "METRO OAKLAND INTL", SiteType::Airport, false),
        rec("21CL", "NORTH VALLEY HELISTOP", SiteType::Helicopter, true),
    ]
}

fn only_reply(src: &mut APTSource) -> Vec<APTInfo> {
    let APTReply::Airport(infos) = src.get_next_reply().expect("a reply is due");
    assert!(src.get_next_reply().is_none());
    infos
}

#[test]
fn airport_lookup_ignores_case_and_returns_the_first_match() {
    let mut src = APTSource::open(sample());
    src.airport("ksfo".to_string());
    src.service();
    let infos = only_reply(&mut src);
    assert_eq!(infos.len(), 1);
    assert_eq!(infos[0].id, "KSFO");
}

#[test]
fn airport_lookup_misses_cleanly() {
    let mut src = APTSource::open(sample());
    src.airport("KLAX".to_string());
    src.service();
    assert!(only_reply(&mut src).is_empty());
}

#[test]
fn search_matches_identifier_or_name_substring() {
    let mut src = APTSource::open(sample());
    src.search("Oakland".to_string());
    src.service();
    let infos = only_reply(&mut src);
    assert_eq!(infos.len(), 1);
    assert_eq!(infos[0].id, "KOAK");

    src.search("INTL".to_string());
    src.service();
    let infos = only_reply(&mut src);
    assert_eq!(infos.len(), 2);
}

#[test]
fn nearby_without_a_spatial_reference_returns_nothing() {
    let mut src = APTSource::open(sample());
    src.nearby(Coord { x: 0, y: 0 }, 100);
    src.service();
    assert!(only_reply(&mut src).is_empty());
}

#[test]
fn nearby_uses_strict_squared_distance() {
    let mut src = APTSource::open(vec![rec("0A0", "ORIGIN FIELD", SiteType::Airport, false)]);
    src.set_spatial_ref(vec![Some(Coord { x: 0, y: 0 })]);
    src.nearby(Coord { x: 0, y: 0 }, 100);
    src.service();
    assert_eq!(only_reply(&mut src).len(), 1);
}

#[test]
fn nearby_excludes_a_feature_exactly_at_the_radius() {
    let mut src = APTSource::open(vec![rec("0A0", "ORIGIN FIELD", SiteType::Airport, false)]);
    src.set_spatial_ref(vec![Some(Coord { x: 100, y: 0 })]);
    src.nearby(Coord { x: 0, y: 0 }, 100);
    src.service();
    assert!(only_reply(&mut src).is_empty());
    src.nearby(Coord { x: 0, y: 0 }, 101);
    src.service();
    assert_eq!(only_reply(&mut src).len(), 1);
}

#[test]
fn a_record_that_could_not_be_projected_is_skipped() {
    let mut src = APTSource::open(vec![
        rec("0A0", "ORIGIN FIELD", SiteType::Airport, false),
        rec("0B0", "OTHER FIELD", SiteType::Airport, false),
    ]);
    src.set_spatial_ref(vec![None, Some(Coord { x: 0, y: 0 })]);
    src.nearby(Coord { x: 0, y: 0 }, 100);
    src.service();
    let infos = only_reply(&mut src);
    assert_eq!(infos.len(), 1);
    assert_eq!(infos[0].id, "0B0");
}

#[test]
fn mismatched_spatial_reference_is_a_failed_transform() {
    let mut src = APTSource::open(sample());
    src.set_spatial_ref(vec![Some(Coord { x: 0, y: 0 })]);
    src.nearby(Coord { x: 0, y: 0 }, 1_000_000);
    src.service();
    assert!(only_reply(&mut src).is_empty());
}

#[test]
fn queries_are_answered_in_order_and_never_superseded() {
    let mut src = APTSource::open(sample());
    src.airport("KSFO".to_string());
    src.airport("KOAK".to_string());
    src.service();
    let APTReply::Airport(first) = src.get_next_reply().unwrap();
    let APTReply::Airport(second) = src.get_next_reply().unwrap();
    assert!(src.get_next_reply().is_none());
    assert_eq!(first[0].id, "KSFO");
    assert_eq!(second[0].id, "KOAK");
}

#[test]
fn exit_stops_the_lookup_worker() {
    let mut src = APTSource::open(sample());
    src.close();
    src.service();
    assert!(src.get_next_reply().is_none());
    src.airport("KSFO".to_string());
    src.service();
    assert!(src.get_next_reply().is_none());
}

#[test]
fn requests_after_exit_in_the_same_backlog_are_dropped() {
    let mut src = APTSource::open(sample());
    src.airport("KSFO".to_string());
    src.close();
    src.airport("KOAK".to_string());
    src.service();
    let infos = only_reply(&mut src);
    assert_eq!(infos[0].id, "KSFO");
}

#[test]
fn private_heliports_are_filtered_by_the_caller() {
    let kept = filter_non_public_heliports(sample());
    assert_eq!(kept.len(), 2);
    assert!(kept.iter().all(|i| i.id != "21CL"));
    // A public heliport and a private airport both stay.
    let mixed = vec![
        rec("H1", "CITY HELIPAD", SiteType::Helicopter, false),
        rec("P1", "PRIVATE STRIP", SiteType::Airport, true),
    ];
    assert_eq!(filter_non_public_heliports(mixed).len(), 2);
}

#[test]
fn site_type_codes_map_to_classifications() {
    assert!(matches!(get_site_type("A"), Some(SiteType::Airport)));
    assert!(matches!(get_site_type("B"), Some(SiteType::Balloon)));
    assert!(matches!(get_site_type("C"), Some(SiteType::Seaplane)));
    assert!(matches!(get_site_type("G"), Some(SiteType::Glider)));
    assert!(matches!(get_site_type("H"), Some(SiteType::Helicopter)));
    assert!(matches!(get_site_type("U"), Some(SiteType::Ultralight)));
    assert!(get_site_type("X").is_none());
    assert!(get_site_type("").is_none());
}

#[test]
fn dms_folds_into_tenths_of_milliarcseconds() {
    assert_eq!(to_dec_deg(34, 5, 600), 34 * 36_000_000 + 5 * 600_000 + 600);
    assert_eq!(to_dec_deg(0, 0, 0), 0);
}

#[test]
fn hemispheres_negate_the_whole_coordinate() {
    let c = get_coord(34, 5, 600, "N", 118, 2, 0, "w");
    assert_eq!(c.y, 34 * 36_000_000 + 5 * 600_000 + 600);
    assert_eq!(c.x, -(118 * 36_000_000 + 2 * 600_000));
    // 12 degrees 30 minutes south is -(12.5 degrees), not -12 + 0.5.
    let c = get_coord(12, 30, 0, "s", 45, 0, 0, "E");
    assert_eq!(c.y, -450_000_000);
    assert_eq!(c.x, 45 * 36_000_000);
}

#[test]
fn only_the_pr_use_code_is_private() {
    assert!(is_private_use("PR"));
    assert!(!is_private_use("PU"));
    assert!(!is_private_use("pr"));
    assert!(!is_private_use(""));
}

#[test]
fn non_public_heliport_is_private_and_helicopter() {
    assert!(rec("X", "X", SiteType::Helicopter, true).non_public_heliport());
    assert!(!rec("X", "X", SiteType::Helicopter, false).non_public_heliport());
    assert!(!rec("X", "X", SiteType::Airport, true).non_public_heliport());
}
