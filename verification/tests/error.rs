use tileforge_crs::{CrsError, push_decimal};

#[test]
fn constructors_build_their_variants() {
    assert_eq!(
        CrsError::unknown_epsg("a".to_string()),
        CrsError::UnknownEpsg("a".to_string())
    );
    assert_eq!(
        CrsError::reproject("b".to_string()),
        CrsError::Reproject("b".to_string())
    );
    assert_eq!(CrsError::parse("c".to_string()), CrsError::Parse("c".to_string()));
    assert_eq!(CrsError::sentinel_code(32767), CrsError::SentinelCode(32767));
    assert_eq!(
        CrsError::io("/x.prj".to_string(), "gone".to_string()),
        CrsError::Io {
            path: "/x.prj".to_string(),
            detail: "gone".to_string()
        }
    );
}

#[test]
fn display_text_of_each_variant() {
    assert_eq!(CrsError::UnknownEpsg("u".to_string()).to_display_string(), "u");
    assert_eq!(CrsError::Reproject("r".to_string()).to_display_string(), "r");
    assert_eq!(CrsError::Parse("p".to_string()).to_display_string(), "p");
    assert_eq!(
        CrsError::SentinelCode(32767).to_display_string(),
        "EPSG:32767 is a GeoTIFF reserved sentinel (0 = undefined, 32767 = user-defined), not a resolvable coordinate reference system; treat it as 'no CRS' (absence), do not pass it to the proj4 catalogue"
    );
    assert!(CrsError::SentinelCode(0)
        .to_display_string()
        .starts_with("EPSG:0 is a GeoTIFF"));
    assert_eq!(
        CrsError::Io {
            path: "/a/b.qpj".to_string(),
            detail: "read CRS sidecar: denied".to_string()
        }
        .to_display_string(),
        "/a/b.qpj: read CRS sidecar: denied"
    );
}

#[test]
fn decimal_rendering() {
    for (n, want) in [(0u16, "0"), (7, "7"), (10, "10"), (4978, "4978"), (65535, "65535")] {
        let mut s = String::from("#");
        push_decimal(&mut s, n);
        assert_eq!(s, format!("#{want}"));
    }
}
