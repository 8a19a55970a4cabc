use tileforge_crs::{
    CatalogueProj, CrsError, Reprojector, SourceCrs, geographic_from_lookup,
    is_geographic_epsg, is_geotiff_sentinel, is_supported_epsg, supported_from_lookup,
};

#[test]
fn geotiff_sentinels_are_flagged() {
    assert!(is_geotiff_sentinel(0), "0 = undefined");
    assert!(is_geotiff_sentinel(32767), "32767 = user-defined");
}

#[test]
fn real_epsg_codes_are_not_sentinels() {
    for code in [4326, 4978, 32617, 32719, 26917] {
        assert!(!is_geotiff_sentinel(code), "{code} is a real EPSG");
    }
    // Private/user range is intentionally NOT a sentinel.
    assert!(!is_geotiff_sentinel(32768));
}

#[test]
fn is_geographic_epsg_classifies_correctly() {
    assert!(is_geographic_epsg(4326), "WGS84 lat/long");
    assert!(is_geographic_epsg(4269), "NAD83 lat/long");
    assert!(!is_geographic_epsg(32633), "UTM 33N is projected");
    assert!(!is_geographic_epsg(2154), "Lambert-93 is projected");
    assert!(
        !is_geographic_epsg(4978),
        "ECEF is geocentric, not lat/long"
    );
    assert!(!is_geographic_epsg(0));
    assert!(!is_geographic_epsg(32767));
}

#[test]
fn is_supported_epsg_matches_catalogue() {
    assert!(is_supported_epsg(4978), "ECEF target is always present");
    assert!(is_supported_epsg(4326));
    assert!(is_supported_epsg(32617));
    assert!(!is_supported_epsg(32767), "user-defined sentinel");
    assert!(!is_supported_epsg(0), "undefined sentinel");
    assert!(!is_supported_epsg(60000));
}

#[test]
fn projected_source_not_flagged_latlong() {
    let rp = Reprojector::new(SourceCrs::new(32633)).expect("32633 in catalogue");
    assert!(!rp.source_is_latlong(), "UTM must not be flagged geographic");
}

#[test]
fn identity_epsg_4978_constructs_and_reports_identity() {
    let rp = Reprojector::new(SourceCrs::ecef()).expect("EPSG:4978 must be in catalogue");
    assert!(rp.is_identity(), "EPSG:4978 source must short-circuit");
}

#[test]
fn projected_source_reports_non_identity() {
    let rp = Reprojector::new(SourceCrs::new(32617)).expect("EPSG:32617 must be in catalogue");
    assert!(!rp.is_identity(), "UTM-17N source must not report identity");
}

#[test]
fn unknown_epsg_returns_crs_error() {
    let err =
        Reprojector::new(SourceCrs::new(65000)).expect_err("EPSG:65000 must not be in catalogue");
    match &err {
        CrsError::UnknownEpsg(msg) => {
            assert!(
                msg.contains("65000"),
                "error message must reference the offending EPSG code: {msg}"
            );
        }
        other => panic!("expected UnknownEpsg, got {other:?}"),
    }
}

// Further pins.

#[test]
fn unknown_source_error_text_starts_with_the_code() {
    let err = Reprojector::new(SourceCrs::new(65000)).expect_err("not in catalogue");
    let CrsError::UnknownEpsg(msg) = err else {
        panic!("want UnknownEpsg");
    };
    assert!(
        msg.starts_with("EPSG:65000 not in crs-definitions catalogue: "),
        "{msg}"
    );
}

#[test]
fn missing_target_error_text() {
    let source = SourceCrs::new(4326);
    let err = Reprojector::from_lookups(
        source,
        CatalogueProj::lookup(4326),
        CatalogueProj::lookup(0),
    )
    .expect_err("target lookup failed");
    let CrsError::UnknownEpsg(msg) = err else {
        panic!("want UnknownEpsg");
    };
    assert!(
        msg.starts_with("EPSG:4978 (ECEF target) missing from catalogue: "),
        "{msg}"
    );
}

#[test]
fn geographic_source_is_flagged_latlong() {
    let rp = Reprojector::new(SourceCrs::new(4326)).expect("4326 in catalogue");
    assert!(rp.source_is_latlong());
    assert_eq!(rp.source_epsg(), 4326);
    assert!(!rp.is_identity());
}

#[test]
fn lookup_results_classify() {
    let found = CatalogueProj::lookup(4269);
    assert_eq!(found.as_ref().map(|p| p.code()).ok(), Some(4269));
    assert!(supported_from_lookup(&found));
    assert!(geographic_from_lookup(&found));
    let missing = CatalogueProj::lookup(60000);
    assert!(!supported_from_lookup(&missing));
    assert!(!geographic_from_lookup(&missing));
    let projected = CatalogueProj::lookup(2154);
    assert!(supported_from_lookup(&projected));
    assert!(!geographic_from_lookup(&projected));
}

#[test]
fn ecef_source_crs() {
    assert_eq!(SourceCrs::ecef(), SourceCrs::new(4978));
    assert_eq!(SourceCrs::new(32617).epsg, 32617);
}

#[test]
fn codes_outside_the_epsg_table_never_resolve() {
    for code in [0u16, 1, 1999, 32767, 32768, 60000, 65535] {
        assert!(CatalogueProj::lookup(code).is_err(), "{code}");
        assert!(!is_supported_epsg(code), "{code}");
        assert!(!is_geographic_epsg(code), "{code}");
    }
    assert!(is_supported_epsg(2000));
    assert!(is_supported_epsg(32766));
}

#[test]
fn wgs84_resolves_geographic_and_ecef_is_not_geographic() {
    assert!(CatalogueProj::lookup(4326).is_ok());
    assert!(is_supported_epsg(4326));
    assert!(is_geographic_epsg(4326));
    assert!(!is_geographic_epsg(4978));
}

#[test]
fn grid_free_codes_resolve_everywhere() {
    let latlong = [4326u16, 4269];
    let other = [4978u16, 32617, 32633, 32719, 2154, 2926];
    for code in latlong.iter().chain(other.iter()).copied() {
        let found = CatalogueProj::lookup(code).expect("grid-free code resolves");
        assert_eq!(found.code(), code);
        assert!(is_supported_epsg(code), "{code}");
        let rp = Reprojector::new(SourceCrs::new(code)).expect("grid-free source builds");
        assert_eq!(rp.source_epsg(), code);
        assert_eq!(rp.source_is_latlong(), latlong.contains(&code), "{code}");
        assert_eq!(found.is_latlong(), latlong.contains(&code), "{code}");
        assert_eq!(is_geographic_epsg(code), latlong.contains(&code), "{code}");
    }
}

#[test]
fn is_supported_epsg_agrees_with_reprojector_new_on_every_code() {
    for code in 0..=u16::MAX {
        let built = Reprojector::new(SourceCrs::new(code));
        assert_eq!(is_supported_epsg(code), built.is_ok(), "{code}");
        let geographic = built.map(|rp| rp.source_is_latlong()).unwrap_or(false);
        assert_eq!(is_geographic_epsg(code), geographic, "{code}");
    }
}
