use tileforge_crs::{CrsHint, CrsResolution};

#[test]
fn detected_with_in_band_passes_through() {
    assert_eq!(
        CrsHint::Detected.resolve(Some(32617)),
        CrsResolution::Detected(32617),
    );
}

#[test]
fn detected_without_in_band_falls_back_to_local_frame() {
    // Absence of a detected EPSG resolves to the local frame, not an error.
    assert_eq!(CrsHint::Detected.resolve(None), CrsResolution::LocalFrame);
}

#[test]
fn override_matching_detected_returns_override() {
    assert_eq!(
        CrsHint::Override(32617).resolve(Some(32617)),
        CrsResolution::Override(32617),
    );
}

#[test]
fn override_mismatching_detected_silently_wins() {
    assert_eq!(
        CrsHint::Override(32617).resolve(Some(32619)),
        CrsResolution::Override(32617),
    );
}

#[test]
fn override_without_detected_used_directly() {
    assert_eq!(
        CrsHint::Override(32617).resolve(None),
        CrsResolution::Override(32617),
    );
}

#[test]
fn epsg_returns_none_for_local_frame_else_inner() {
    assert_eq!(CrsResolution::Override(32617).epsg(), Some(32617));
    assert_eq!(CrsResolution::Detected(32617).epsg(), Some(32617));
    assert_eq!(CrsResolution::LocalFrame.epsg(), None);
}

#[test]
fn originally_georeferenced_is_true_iff_not_local_frame() {
    assert!(CrsResolution::Override(32617).originally_georeferenced());
    assert!(CrsResolution::Detected(32617).originally_georeferenced());
    assert!(!CrsResolution::LocalFrame.originally_georeferenced());
}

// Laws on concrete values.

#[test]
fn override_wins_for_every_detected_value() {
    for detected in [None, Some(0u16), Some(4326), Some(65535)] {
        let r = CrsHint::Override(2154).resolve(detected);
        assert_eq!(r, CrsResolution::Override(2154));
        assert_eq!(r.epsg(), Some(2154));
    }
}

#[test]
fn detected_resolution_epsg_is_the_detected_value() {
    for detected in [None, Some(0u16), Some(4326), Some(65535)] {
        let r = CrsHint::Detected.resolve(detected);
        assert_eq!(r.epsg(), detected);
        assert_eq!(r.originally_georeferenced(), detected.is_some());
    }
}

#[test]
fn georeferenced_iff_resolution_carries_epsg() {
    for r in [
        CrsResolution::Override(1),
        CrsResolution::Detected(2),
        CrsResolution::LocalFrame,
    ] {
        assert_eq!(r.originally_georeferenced(), r.epsg().is_some());
    }
}
