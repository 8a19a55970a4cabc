use tileforge_crs::{CrsError, WktExtraction, extract_epsg_from_wkt};

// WKT fixtures: WGS 84 / UTM zone 17N (Kingston Rd), WGS 84 / UTM zone 19S
// (Fabregualta), geocentric WGS 84, and UTM 17N + EGM96 height as a COMPD_CS.
const KINGSTON_WKT: &str = r#"PROJCS["WGS 84 / UTM zone 17N",GEOGCS["WGS 84",DATUM["WGS_1984",SPHEROID["WGS 84",6378137,298.257223563,AUTHORITY["EPSG","7030"]],AUTHORITY["EPSG","6326"]],PRIMEM["Greenwich",0,AUTHORITY["EPSG","8901"]],UNIT["degree",0.0174532925199433,AUTHORITY["EPSG","9122"]],AUTHORITY["EPSG","4326"]],PROJECTION["Transverse_Mercator"],PARAMETER["latitude_of_origin",0],PARAMETER["central_meridian",-81],PARAMETER["scale_factor",0.9996],PARAMETER["false_easting",500000],PARAMETER["false_northing",0],UNIT["metre",1,AUTHORITY["EPSG","9001"]],AXIS["Easting",EAST],AXIS["Northing",NORTH],AUTHORITY["EPSG","32617"]]
"#;
const FABRE_WKT: &str = r#"PROJCS["WGS 84 / UTM zone 19S",GEOGCS["WGS 84",DATUM["WGS_1984",SPHEROID["WGS 84",6378137,298.257223563,AUTHORITY["EPSG","7030"]],AUTHORITY["EPSG","6326"]],PRIMEM["Greenwich",0,AUTHORITY["EPSG","8901"]],UNIT["degree",0.0174532925199433,AUTHORITY["EPSG","9122"]],AUTHORITY["EPSG","4326"]],PROJECTION["Transverse_Mercator"],PARAMETER["latitude_of_origin",0],PARAMETER["central_meridian",-69],PARAMETER["scale_factor",0.9996],PARAMETER["false_easting",500000],PARAMETER["false_northing",10000000],UNIT["metre",1,AUTHORITY["EPSG","9001"]],AXIS["Easting",EAST],AXIS["Northing",NORTH],AUTHORITY["EPSG","32719"]]
"#;
const COMPD_WKT: &str = r#"COMPD_CS["WGS 84 / UTM zone 17N + EGM96 height",PROJCS["WGS 84 / UTM zone 17N",GEOGCS["WGS 84",DATUM["WGS_1984",SPHEROID["WGS 84",6378137,298.257223563,AUTHORITY["EPSG","7030"]],AUTHORITY["EPSG","6326"]],PRIMEM["Greenwich",0,AUTHORITY["EPSG","8901"]],UNIT["degree",0.0174532925199433,AUTHORITY["EPSG","9122"]],AUTHORITY["EPSG","4326"]],PROJECTION["Transverse_Mercator"],PARAMETER["latitude_of_origin",0],PARAMETER["central_meridian",-81],PARAMETER["scale_factor",0.9996],PARAMETER["false_easting",500000],PARAMETER["false_northing",0],UNIT["metre",1,AUTHORITY["EPSG","9001"]],AXIS["Easting",EAST],AXIS["Northing",NORTH],AUTHORITY["EPSG","32617"]],VERT_CS["EGM96 height",VERT_DATUM["EGM96 geoid",2005,AUTHORITY["EPSG","5171"]],UNIT["metre",1,AUTHORITY["EPSG","9001"]],AXIS["Gravity-related height",UP],AUTHORITY["EPSG","5773"]]]
"#;
const ECEF_WKT: &str = r#"GEOCCS["WGS 84",DATUM["WGS_1984",SPHEROID["WGS 84",6378137,298.257223563,AUTHORITY["EPSG","7030"]],AUTHORITY["EPSG","6326"]],PRIMEM["Greenwich",0,AUTHORITY["EPSG","8901"]],UNIT["metre",1,AUTHORITY["EPSG","9001"]],AXIS["Geocentric X",OTHER],AXIS["Geocentric Y",OTHER],AXIS["Geocentric Z",NORTH],AUTHORITY["EPSG","4978"]]
"#;

fn parse_message(err: CrsError) -> String {
    match err {
        CrsError::Parse(msg) => msg,
        other => panic!("want Parse got {other:?}"),
    }
}

#[test]
fn projcs_kingston_yields_32617_no_vertical() {
    let r = extract_epsg_from_wkt(KINGSTON_WKT).unwrap();
    assert_eq!(
        r,
        WktExtraction {
            epsg: 32617,
            vertical_stripped: false
        }
    );
}

#[test]
fn projcs_fabregualta_yields_32719() {
    let r = extract_epsg_from_wkt(FABRE_WKT).unwrap();
    assert_eq!(
        r,
        WktExtraction {
            epsg: 32719,
            vertical_stripped: false
        }
    );
}

#[test]
fn geoccs_ecef_wkt_yields_4978() {
    let r = extract_epsg_from_wkt(ECEF_WKT).unwrap();
    assert_eq!(
        r,
        WktExtraction {
            epsg: 4978,
            vertical_stripped: false
        }
    );
}

#[test]
fn compd_cs_returns_horizontal_epsg_and_strips_vertical() {
    let r = extract_epsg_from_wkt(COMPD_WKT).unwrap();
    assert_eq!(
        r,
        WktExtraction {
            epsg: 32617,
            vertical_stripped: true
        }
    );
}

#[test]
fn projcs_with_no_authority_is_crs_error() {
    let wkt = r#"PROJCS["fake", GEOGCS["wgs",DATUM["d",SPHEROID["s",6378137,298.257]]], PROJECTION["tm"], UNIT["m",1]]"#;
    let err = extract_epsg_from_wkt(wkt).unwrap_err();
    let CrsError::Parse(msg) = &err else {
        panic!("want Parse got {err:?}");
    };
    assert!(msg.to_lowercase().contains("authority"), "msg: {msg}");
}

#[test]
fn projcs_with_non_epsg_authority_is_crs_error() {
    let wkt = r#"PROJCS["esri thing", AUTHORITY["ESRI","102100"]]"#;
    let err = extract_epsg_from_wkt(wkt).unwrap_err();
    let CrsError::Parse(msg) = &err else {
        panic!("want Parse got {err:?}");
    };
    assert!(msg.to_lowercase().contains("esri"), "msg: {msg}");
}

#[test]
fn empty_string_is_crs_error() {
    assert!(matches!(
        extract_epsg_from_wkt("").unwrap_err(),
        CrsError::Parse(_)
    ));
}

#[test]
fn unbalanced_brackets_is_crs_error() {
    assert!(matches!(
        extract_epsg_from_wkt(r#"PROJCS["x", AUTHORITY["EPSG","32617""#).unwrap_err(),
        CrsError::Parse(_)
    ));
}

#[test]
fn unknown_root_identifier_is_crs_error() {
    assert!(matches!(
        extract_epsg_from_wkt(r#"VERT_CS["only vertical", AUTHORITY["EPSG","5773"]]"#)
            .unwrap_err(),
        CrsError::Parse(_)
    ));
}

#[test]
fn whitespace_and_lowercase_are_tolerated() {
    let wkt = r#"
        projcs [ "WGS 84 / UTM zone 17N",
            geogcs [ "WGS 84",
                authority [ "EPSG", "4326" ] ],
            authority [ "EPSG" , "32617" ]
        ]
    "#;
    let r = extract_epsg_from_wkt(wkt).unwrap();
    assert_eq!(r.epsg, 32617);
}

#[test]
fn wkt2_geogcrs_unquoted_id_yields_4326() {
    let wkt = r#"GEOGCRS["WGS 84",
        DATUM["World Geodetic System 1984",
            ELLIPSOID["WGS 84",6378137,298.257223563,LENGTHUNIT["metre",1]]],
        CS[ellipsoidal,2],
            AXIS["geodetic latitude (Lat)",north],
            AXIS["geodetic longitude (Lon)",east],
            ANGLEUNIT["degree",0.0174532925199433],
        ID["EPSG",4326]]"#;
    let r = extract_epsg_from_wkt(wkt).unwrap();
    assert_eq!(r.epsg, 4326);
    assert!(!r.vertical_stripped);
}

#[test]
fn wkt2_geodcrs_nad83_yields_4269() {
    let wkt = r#"GEODCRS["NAD83",
        DATUM["North American Datum 1983",
            ELLIPSOID["GRS 1980",6378137,298.257222101]],
        CS[ellipsoidal,2],AXIS["lat",north],AXIS["lon",east],
        ID["EPSG",4269]]"#;
    assert_eq!(extract_epsg_from_wkt(wkt).unwrap().epsg, 4269);
}

#[test]
fn wkt2_projcrs_takes_projected_id_not_base() {
    let wkt = r#"PROJCRS["WGS 84 / UTM zone 17N",
        BASEGEOGCRS["WGS 84",
            DATUM["World Geodetic System 1984",
                ELLIPSOID["WGS 84",6378137,298.257223563]],
            ID["EPSG",4326]],
        CONVERSION["UTM zone 17N",METHOD["Transverse Mercator",ID["EPSG",9807]]],
        CS[Cartesian,2],AXIS["(E)",east],AXIS["(N)",north],
        LENGTHUNIT["metre",1],
        ID["EPSG",32617]]"#;
    assert_eq!(extract_epsg_from_wkt(wkt).unwrap().epsg, 32617);
}

#[test]
fn wkt2_compoundcrs_strips_vertical() {
    let wkt = r#"COMPOUNDCRS["NAD83 / UTM 17N + NAVD88",
        PROJCRS["NAD83 / UTM zone 17N",
            BASEGEOGCRS["NAD83",DATUM["NAD83",ELLIPSOID["GRS 1980",6378137,298.257222101]],ID["EPSG",4269]],
            CONVERSION["x",METHOD["Transverse Mercator"]],
            CS[Cartesian,2],AXIS["e",east],AXIS["n",north],ID["EPSG",26917]],
        VERTCRS["NAVD88",VDATUM["North American Vertical Datum 1988"],
            CS[vertical,1],AXIS["up",up],ID["EPSG",5703]]]"#;
    let r = extract_epsg_from_wkt(wkt).unwrap();
    assert_eq!(r.epsg, 26917);
    assert!(r.vertical_stripped);
}

#[test]
fn wkt2_boundcrs_descends_into_sourcecrs() {
    let wkt = r#"BOUNDCRS[
        SOURCECRS[GEOGCRS["unknown",DATUM["d",ELLIPSOID["GRS 1980",6378137,298.257222101]],
            CS[ellipsoidal,2],AXIS["lat",north],AXIS["lon",east],ID["EPSG",4269]]],
        TARGETCRS[GEOGCRS["WGS 84",DATUM["WGS84",ELLIPSOID["WGS 84",6378137,298.257223563]],ID["EPSG",4326]]],
        ABRIDGEDTRANSFORMATION["NAD83 to WGS84",METHOD["Geocentric translations"],
            PARAMETER["X",0,LENGTHUNIT["metre",1]]]]"#;
    assert_eq!(extract_epsg_from_wkt(wkt).unwrap().epsg, 4269);
}

#[test]
fn wkt2_id_with_trailing_uri_arg_is_tolerated() {
    let wkt = r#"GEOGCRS["WGS 84",DATUM["d",ELLIPSOID["WGS 84",6378137,298.257223563]],
        CS[ellipsoidal,2],AXIS["lat",north],AXIS["lon",east],
        ID["EPSG",4326,URI["http://www.opengis.net/def/crs/EPSG/0/4326"]]]"#;
    assert_eq!(extract_epsg_from_wkt(wkt).unwrap().epsg, 4326);
}

#[test]
fn quoted_brackets_in_name_do_not_mis_count() {
    let wkt = r#"PROJCS["weird]name", AUTHORITY["EPSG","32617"]]"#;
    let r = extract_epsg_from_wkt(wkt).unwrap();
    assert_eq!(r.epsg, 32617);
}

// Exact error texts, one input per failure mode.

#[test]
fn empty_input_error_text() {
    assert_eq!(
        parse_message(extract_epsg_from_wkt("   \n").unwrap_err()),
        "WKT VLR is empty or has no leading identifier"
    );
}

#[test]
fn missing_open_bracket_error_text() {
    assert_eq!(
        parse_message(extract_epsg_from_wkt("PROJCS \"x\"").unwrap_err()),
        "WKT VLR identifier 'PROJCS' is not followed by '['"
    );
}

#[test]
fn unbalanced_root_error_text() {
    assert_eq!(
        parse_message(extract_epsg_from_wkt("geogcs[\"x\"").unwrap_err()),
        "WKT VLR identifier 'geogcs' has unbalanced brackets"
    );
}

#[test]
fn unexpected_root_error_text() {
    assert_eq!(
        parse_message(extract_epsg_from_wkt("VERT_CS[\"v\"]").unwrap_err()),
        "WKT VLR root is unexpected 'VERT_CS' (want a WKT1 PROJCS/GEOGCS/GEOCCS/COMPD_CS or WKT2 PROJCRS/GEOGCRS/GEODCRS/COMPOUNDCRS/BOUNDCRS)"
    );
}

#[test]
fn compound_without_horizontal_error_text() {
    assert_eq!(
        parse_message(extract_epsg_from_wkt("COMPD_CS[\"c\",VERT_CS[\"v\"]]").unwrap_err()),
        "compound CRS contains no horizontal (PROJCS/GEOGCS/GEOCCS/PROJCRS/GEOGCRS/GEODCRS) subblock to extract EPSG from"
    );
}

#[test]
fn compound_error_comes_from_the_horizontal_component() {
    assert_eq!(
        parse_message(
            extract_epsg_from_wkt("COMPOUNDCRS[\"c\",GEOGCRS[\"g\",ID[\"ESRI\",1]]]").unwrap_err()
        ),
        "WKT VLR uses non-EPSG authority 'ESRI'; only EPSG is supported"
    );
}

#[test]
fn boundcrs_without_source_error_text() {
    assert_eq!(
        parse_message(extract_epsg_from_wkt("BOUNDCRS[TARGETCRS[GEOGCRS[\"g\",ID[\"EPSG\",4326]]]]").unwrap_err()),
        "BOUNDCRS has no SOURCECRS subblock"
    );
}

#[test]
fn boundcrs_source_body_is_trimmed_before_recursing() {
    // U+00A0 and U+3000 (Unicode White_Space) around the wrapped CRS.
    let wkt = "BOUNDCRS[SOURCECRS[\u{a0}GEOGCRS[\"g\",ID[\"EPSG\",4269]]\u{3000}]]";
    assert_eq!(
        extract_epsg_from_wkt(wkt).unwrap(),
        WktExtraction {
            epsg: 4269,
            vertical_stripped: false
        }
    );
}

#[test]
fn boundcrs_wrapping_a_compound_keeps_the_vertical_flag() {
    let wkt = "BOUNDCRS[SOURCECRS[COMPD_CS[\"c\",PROJCS[\"p\",AUTHORITY[\"EPSG\",\"32617\"]],VERT_CS[\"v\"]]]]";
    assert_eq!(
        extract_epsg_from_wkt(wkt).unwrap(),
        WktExtraction {
            epsg: 32617,
            vertical_stripped: true
        }
    );
}

#[test]
fn unterminated_quote_leaves_root_unbalanced() {
    assert_eq!(
        parse_message(extract_epsg_from_wkt("PROJCS[\"a\",UNIT[\"]]").unwrap_err()),
        "WKT VLR identifier 'PROJCS' has unbalanced brackets"
    );
}

#[test]
fn no_authority_error_text() {
    assert_eq!(
        parse_message(extract_epsg_from_wkt("GEOGCS[\"g\",UNIT[\"d\",1]]").unwrap_err()),
        "WKT VLR has no EPSG AUTHORITY/ID clause; pre-process with `pdal translate` to inject one"
    );
}

#[test]
fn single_argument_authority_error_text() {
    assert_eq!(
        parse_message(extract_epsg_from_wkt("GEOGCS[\"g\",AUTHORITY[\"EPSG\"]]").unwrap_err()),
        "AUTHORITY/ID clause must have at least two arguments, got 1 (\"\\\"EPSG\\\"\")"
    );
}

#[test]
fn unquoted_authority_error_text() {
    assert_eq!(
        parse_message(extract_epsg_from_wkt("GEOGCS[\"g\",ID[EPSG,4326]]").unwrap_err()),
        "AUTHORITY argument is not quoted: \"EPSG\""
    );
}

#[test]
fn out_of_range_code_error_text() {
    assert_eq!(
        parse_message(extract_epsg_from_wkt("GEOGCS[\"g\",ID[\"EPSG\",99999]]").unwrap_err()),
        "AUTHORITY/ID code is not a valid EPSG u16: \"99999\": number too large to fit in target type"
    );
    assert_eq!(
        parse_message(extract_epsg_from_wkt("GEOGCS[\"g\",ID[\"EPSG\",\" 42\"]]").unwrap_err()),
        "AUTHORITY/ID code is not a valid EPSG u16: \" 42\": invalid digit found in string"
    );
    assert_eq!(
        parse_message(extract_epsg_from_wkt("GEOGCS[\"g\",ID[\"EPSG\",\"\"]]").unwrap_err()),
        "AUTHORITY/ID code is not a valid EPSG u16: \"\": cannot parse integer from empty string"
    );
}

#[test]
fn authority_keyword_and_value_ignore_case() {
    assert_eq!(
        extract_epsg_from_wkt("GeogCrs[\"g\",Id[\"epsg\",\"4326\"]]").unwrap(),
        WktExtraction {
            epsg: 4326,
            vertical_stripped: false
        }
    );
}

#[test]
fn escaped_quotes_inside_names_are_skipped() {
    let wkt = r#"PROJCS["a ""quoted]"" name", AUTHORITY["EPSG","2154"]]"#;
    assert_eq!(extract_epsg_from_wkt(wkt).unwrap().epsg, 2154);
}

#[test]
fn sentinel_codes_parse_as_codes() {
    assert_eq!(
        extract_epsg_from_wkt("GEOGCS[\"g\",AUTHORITY[\"EPSG\",\"0\"]]").unwrap().epsg,
        0
    );
    assert_eq!(
        extract_epsg_from_wkt("GEOGCS[\"g\",ID[\"EPSG\",32767]]").unwrap().epsg,
        32767
    );
}
