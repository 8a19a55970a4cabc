# tileforge-crs

The CRS core shared by point-cloud and mesh tiling pipelines, as a verified
Verus library.

- `src/` — the library, every function proved against its contract except
  the five trusted wrappers (`#[verifier::external_body]`) that make the
  calls into proj4rs (`Proj::from_epsg_code`, `Proj::is_latlong`, the
  `Debug` text of its error) and std (`String::from_utf8_lossy`, `Debug` for
  `str`); their contracts are stated in their doc comments and believed:
  - `wkt.rs`: the OGC WKT1/WKT2 EPSG scanner (`extract_epsg_from_wkt`),
    specified by `wkt_extraction` over the UTF-8 bytes of the input;
  - `sidecar.rs`: `EPSG:NNNNN` / WKT CRS strings (`parse_crs_string`) and
    the decision of which `.prj` / `.qpj` sidecar answers;
  - `reproject.rs`: `Reprojector` construction and catalogue queries through
    proj4rs;
  - `crs_hint.rs`, `source_crs.rs`, `error.rs`, `text.rs`: CRS policy, the
    source handle, errors and their texts, byte-level text primitives
    (Unicode trimming, `u16` parsing).
- `app/` — ordinary Rust around it: the file-system sidecar lookup, the
  `thiserror` error type, and the floating-point geometry (point
  reprojection to ECEF, the local East-North-Up frame).
- `tests/` — the test suite.
