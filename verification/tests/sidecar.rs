use tileforge_crs::{
    CrsError, ParsedCrs, SidecarCrs, SidecarProbe, parse_crs_string, parse_crs_string_epsg,
    resolve_sidecar_probe, resolve_sidecar_probes, sidecar_extensions,
};

const KINGSTON_WKT: &str = r#"PROJCS["WGS 84 / UTM zone 17N",GEOGCS["WGS 84",DATUM["WGS_1984",SPHEROID["WGS 84",6378137,298.257223563,AUTHORITY["EPSG","7030"]],AUTHORITY["EPSG","6326"]],PRIMEM["Greenwich",0,AUTHORITY["EPSG","8901"]],UNIT["degree",0.0174532925199433,AUTHORITY["EPSG","9122"]],AUTHORITY["EPSG","4326"]],PROJECTION["Transverse_Mercator"],PARAMETER["latitude_of_origin",0],PARAMETER["central_meridian",-81],PARAMETER["scale_factor",0.9996],PARAMETER["false_easting",500000],PARAMETER["false_northing",0],UNIT["metre",1,AUTHORITY["EPSG","9001"]],AXIS["Easting",EAST],AXIS["Northing",NORTH],AUTHORITY["EPSG","32617"]]
"#;
const FABRE_WKT: &str = r#"PROJCS["WGS 84 / UTM zone 19S",GEOGCS["WGS 84",DATUM["WGS_1984",SPHEROID["WGS 84",6378137,298.257223563,AUTHORITY["EPSG","7030"]],AUTHORITY["EPSG","6326"]],PRIMEM["Greenwich",0,AUTHORITY["EPSG","8901"]],UNIT["degree",0.0174532925199433,AUTHORITY["EPSG","9122"]],AUTHORITY["EPSG","4326"]],PROJECTION["Transverse_Mercator"],PARAMETER["latitude_of_origin",0],PARAMETER["central_meridian",-69],PARAMETER["scale_factor",0.9996],PARAMETER["false_easting",500000],PARAMETER["false_northing",10000000],UNIT["metre",1,AUTHORITY["EPSG","9001"]],AXIS["Easting",EAST],AXIS["Northing",NORTH],AUTHORITY["EPSG","32719"]]
"#;
const COMPD_WKT: &str = r#"COMPD_CS["WGS 84 / UTM zone 17N + EGM96 height",PROJCS["WGS 84 / UTM zone 17N",GEOGCS["WGS 84",DATUM["WGS_1984",SPHEROID["WGS 84",6378137,298.257223563,AUTHORITY["EPSG","7030"]],AUTHORITY["EPSG","6326"]],PRIMEM["Greenwich",0,AUTHORITY["EPSG","8901"]],UNIT["degree",0.0174532925199433,AUTHORITY["EPSG","9122"]],AUTHORITY["EPSG","4326"]],PROJECTION["Transverse_Mercator"],PARAMETER["latitude_of_origin",0],PARAMETER["central_meridian",-81],PARAMETER["scale_factor",0.9996],PARAMETER["false_easting",500000],PARAMETER["false_northing",0],UNIT["metre",1,AUTHORITY["EPSG","9001"]],AXIS["Easting",EAST],AXIS["Northing",NORTH],AUTHORITY["EPSG","32617"]],VERT_CS["EGM96 height",VERT_DATUM["EGM96 geoid",2005,AUTHORITY["EPSG","5171"]],UNIT["metre",1,AUTHORITY["EPSG","9001"]],AXIS["Gravity-related height",UP],AUTHORITY["EPSG","5773"]]]
"#;

fn present(path: &str, body: &str) -> SidecarProbe {
    SidecarProbe::Present {
        path: path.to_string(),
        body: body.to_string(),
    }
}

#[test]
fn parse_crs_string_short_form_no_vertical() {
    let p = parse_crs_string("EPSG:32617").unwrap();
    assert_eq!(p.epsg, 32617);
    assert!(!p.vertical_stripped);
}

#[test]
fn parse_crs_string_compd_cs_sets_vertical_stripped() {
    let p = parse_crs_string(COMPD_WKT).unwrap();
    assert_eq!(p.epsg, 32617);
    assert!(p.vertical_stripped);
}

#[test]
fn parse_crs_string_epsg_convenience_returns_bare_code() {
    assert_eq!(parse_crs_string_epsg(KINGSTON_WKT).unwrap(), 32617);
    assert_eq!(parse_crs_string_epsg("EPSG:26917").unwrap(), 26917);
}

#[test]
fn short_form_tolerates_case_and_unicode_whitespace() {
    assert_eq!(
        parse_crs_string("  epsg : 26917 \n").unwrap(),
        ParsedCrs {
            epsg: 26917,
            vertical_stripped: false
        }
    );
    assert_eq!(
        parse_crs_string("\u{a0}EpSg\u{2003}:\u{3000}4326\u{85}").unwrap().epsg,
        4326
    );
    assert_eq!(parse_crs_string("EPSG:+123").unwrap().epsg, 123);
}

#[test]
fn sentinel_short_forms_parse_to_their_codes() {
    // GeoTIFF sentinels are not rejected by the parser; callers test for them with `is_geotiff_sentinel`.
    assert_eq!(parse_crs_string("EPSG:0").unwrap().epsg, 0);
    assert_eq!(parse_crs_string("EPSG:32767").unwrap().epsg, 32767);
}

#[test]
fn failed_short_form_falls_through_to_wkt_error() {
    let expected_prefix = "expected `EPSG:NNNNN` short form or OGC WKT `PROJCS[...]` / `GEOGCS[...]` / `GEOCCS[...]` / `COMPD_CS[...]`; WKT parse error: ";
    for (body, wkt_error) in [
        (
            "AUTO:42001",
            "WKT VLR identifier 'AUTO' is not followed by '['",
        ),
        (
            "EPSG:65536",
            "WKT VLR identifier 'EPSG' is not followed by '['",
        ),
        ("EPSG:-5", "WKT VLR identifier 'EPSG' is not followed by '['"),
        ("", "WKT VLR is empty or has no leading identifier"),
    ] {
        match parse_crs_string(body).unwrap_err() {
            CrsError::Parse(msg) => assert_eq!(msg, format!("{expected_prefix}{wkt_error}")),
            other => panic!("want Parse got {other:?}"),
        }
    }
}

#[test]
fn parse_error_names_both_forms() {
    let err = parse_crs_string("this is not WKT").unwrap_err();
    let msg = err.to_display_string();
    assert!(msg.contains("EPSG:NNNNN"), "got: {msg}");
    assert!(msg.contains("WKT"), "got: {msg}");
}

#[test]
fn sidecar_extensions_try_prj_before_qpj() {
    assert_eq!(sidecar_extensions(), vec!["prj", "PRJ", "qpj", "QPJ"]);
}

#[test]
fn probes_with_no_sidecar_give_none() {
    assert_eq!(resolve_sidecar_probes(vec![]), Ok(None));
    assert_eq!(
        resolve_sidecar_probes(vec![SidecarProbe::Absent, SidecarProbe::Absent]),
        Ok(None)
    );
    assert_eq!(resolve_sidecar_probe(SidecarProbe::Absent), None);
}

#[test]
fn present_prj_sidecar_resolves() {
    let r = resolve_sidecar_probes(vec![present("/d/with-prj.prj", KINGSTON_WKT)])
        .unwrap()
        .unwrap();
    assert_eq!(
        r,
        SidecarCrs {
            epsg: 32617,
            vertical_stripped: false,
            source: "/d/with-prj.prj".to_string(),
        }
    );
}

#[test]
fn first_existing_sidecar_wins() {
    let r = resolve_sidecar_probes(vec![
        SidecarProbe::Absent,
        present("/d/both.PRJ", KINGSTON_WKT),
        present("/d/both.qpj", FABRE_WKT),
    ])
    .unwrap()
    .unwrap();
    assert_eq!(r.epsg, 32617);
    assert_eq!(r.source, "/d/both.PRJ");
}

#[test]
fn compound_sidecar_reports_vertical_stripped() {
    let r = resolve_sidecar_probes(vec![present("/d/compd.prj", COMPD_WKT)])
        .unwrap()
        .unwrap();
    assert_eq!(r.epsg, 32617);
    assert!(r.vertical_stripped);
}

#[test]
fn short_form_sidecar_body_is_trimmed() {
    let r = resolve_sidecar_probes(vec![present("/d/loose.prj", "  epsg : 26917 \n")])
        .unwrap()
        .unwrap();
    assert_eq!(r.epsg, 26917);
    assert!(!r.vertical_stripped);
}

#[test]
fn malformed_sidecar_is_an_error_even_when_a_later_one_parses() {
    let err = resolve_sidecar_probes(vec![
        present("/d/bad.prj", "this is not WKT"),
        present("/d/bad.qpj", KINGSTON_WKT),
    ])
    .unwrap_err();
    assert_eq!(
        err,
        CrsError::Parse(
            "CRS sidecar /d/bad.prj is not parseable: expected `EPSG:NNNNN` short form or OGC WKT `PROJCS[...]` / `GEOGCS[...]` / `GEOCCS[...]` / `COMPD_CS[...]`; WKT parse error: WKT VLR identifier 'this' is not followed by '['"
                .to_string()
        )
    );
    let msg = err.to_display_string();
    assert!(msg.contains("sidecar"), "got: {msg}");
    assert!(msg.contains(".prj"), "got: {msg}");
}

#[test]
fn unreadable_sidecar_is_an_io_error() {
    let err = resolve_sidecar_probes(vec![SidecarProbe::Unreadable {
        path: "/d/locked.prj".to_string(),
        detail: "permission denied".to_string(),
    }])
    .unwrap_err();
    assert_eq!(
        err,
        CrsError::Io {
            path: "/d/locked.prj".to_string(),
            detail: "read CRS sidecar: permission denied".to_string(),
        }
    );
    assert_eq!(
        err.to_display_string(),
        "/d/locked.prj: read CRS sidecar: permission denied"
    );
}

#[test]
fn every_code_reads_back_from_its_short_form() {
    for n in [0u16, 7, 10, 99, 2154, 4326, 32767, 65535] {
        assert_eq!(
            parse_crs_string(&format!("EPSG:{n}")),
            Ok(ParsedCrs {
                epsg: n,
                vertical_stripped: false
            }),
            "{n}"
        );
    }
}
