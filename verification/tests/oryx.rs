use zapp::oryx::{
    check_update, firmware_url, latest_revision_url, parse_serial, parse_url, revision_lookup, OryxError,
    RevisionLookup, UpdateCheck,
};

#[test]
fn test_parse_url_bare_layout() {
    let (layout, rev) = parse_url("https://configure.zsa.io/voyager/layouts/abcde").unwrap();
    assert_eq!(layout, "abcde");
    assert_eq!(rev, None);
}

#[test]
fn test_parse_url_latest() {
    let (layout, rev) =
        parse_url("https://configure.zsa.io/voyager/layouts/abcde/latest").unwrap();
    assert_eq!(layout, "abcde");
    assert_eq!(rev, None);
}

#[test]
fn test_parse_url_latest_with_zero() {
    let (layout, rev) =
        parse_url("https://configure.zsa.io/voyager/layouts/abcde/latest/0").unwrap();
    assert_eq!(layout, "abcde");
    assert_eq!(rev, None);
}

#[test]
fn test_parse_url_specific_revision() {
    let (layout, rev) =
        parse_url("https://configure.zsa.io/moonlander/layouts/AbCdE/abc123").unwrap();
    assert_eq!(layout, "AbCdE");
    assert_eq!(rev, Some("abc123"));
}

#[test]
fn test_parse_url_trailing_slash() {
    let (layout, rev) =
        parse_url("https://configure.zsa.io/voyager/layouts/abcde/").unwrap();
    assert_eq!(layout, "abcde");
    assert_eq!(rev, None);
}

#[test]
fn test_parse_url_invalid_prefix() {
    assert!(parse_url("https://example.com/voyager/layouts/abcde").is_err());
}

#[test]
fn test_parse_url_missing_layouts_segment() {
    assert!(parse_url("https://configure.zsa.io/voyager/abcde").is_err());
}

#[test]
fn parse_url_error_is_invalid_url() {
    assert!(matches!(
        parse_url("https://configure.zsa.io/voyager/abcde"),
        Err(OryxError::InvalidUrl)
    ));
    assert!(matches!(parse_url("configure.zsa.io/voyager/layouts/x"), Err(OryxError::InvalidUrl)));
}

#[test]
fn parse_url_many_trailing_slashes() {
    let (layout, rev) =
        parse_url("https://configure.zsa.io/voyager/layouts/abcde/xyz///").unwrap();
    assert_eq!(layout, "abcde");
    assert_eq!(rev, Some("xyz"));
}

#[test]
fn parse_url_trailing_slash_changes_nothing() {
    let plain = parse_url("https://configure.zsa.io/voyager/layouts/q1/r2").unwrap();
    let slashed = parse_url("https://configure.zsa.io/voyager/layouts/q1/r2/").unwrap();
    assert_eq!(plain, slashed);
}

#[test]
fn parse_url_revision_followed_by_more_path() {
    let (layout, rev) =
        parse_url("https://configure.zsa.io/voyager/layouts/abcde/rev9/extra").unwrap();
    assert_eq!(layout, "abcde");
    assert_eq!(rev, Some("rev9"));
}

#[test]
fn parse_url_latest_is_exact_segment() {
    let (layout, rev) =
        parse_url("https://configure.zsa.io/voyager/layouts/abcde/latest0").unwrap();
    assert_eq!(layout, "abcde");
    assert_eq!(rev, Some("latest0"));
}

#[test]
fn parse_url_empty_layout_segment() {
    let (layout, rev) = parse_url("https://configure.zsa.io/voyager/layouts//r").unwrap();
    assert_eq!(layout, "");
    assert_eq!(rev, Some("r"));
}

#[test]
fn parse_url_layouts_segment_only() {
    assert!(parse_url("https://configure.zsa.io/voyager/layouts/").is_err());
    assert!(parse_url("https://configure.zsa.io/").is_err());
    assert!(parse_url("https://configure.zsa.io").is_err());
}

#[test]
fn parse_url_non_ascii_segments() {
    let (layout, rev) = parse_url("https://configure.zsa.io/välj/layouts/ünï/ç").unwrap();
    assert_eq!(layout, "ünï");
    assert_eq!(rev, Some("ç"));
}

#[test]
fn parse_serial_splits_at_first_slash() {
    assert_eq!(parse_serial("lay/rev"), Some(("lay", "rev")));
    assert_eq!(parse_serial("lay/rev/more"), Some(("lay", "rev/more")));
}

#[test]
fn parse_serial_rejects_non_oryx_serials() {
    assert_eq!(parse_serial("noslash"), None);
    assert_eq!(parse_serial("/rev"), None);
    assert_eq!(parse_serial("lay/"), None);
    assert_eq!(parse_serial(""), None);
    assert_eq!(parse_serial("/"), None);
}

#[test]
fn parse_serial_round_trip() {
    let serial = format!("{}/{}", "AbC", "x9");
    assert_eq!(parse_serial(&serial), Some(("AbC", "x9")));
}

#[test]
fn oryx_service_urls() {
    assert_eq!(latest_revision_url("abcde"), "https://oryx.zsa.io/firmware/latest/abcde");
    assert_eq!(firmware_url("r1", false), "https://oryx.zsa.io/firmware/r1");
    assert_eq!(firmware_url("r1", true), "https://oryx.zsa.io/firmware/r1?alt=true");
}

#[test]
fn update_check_same_revision_is_up_to_date() {
    assert!(matches!(check_update("r1", "r1", 0x1969), UpdateCheck::UpToDate));
}

#[test]
fn update_check_names_download() {
    match check_update("r1", "r2", 0x1969) {
        UpdateCheck::Available { download_url } => {
            assert_eq!(download_url, "https://oryx.zsa.io/firmware/r2")
        }
        UpdateCheck::UpToDate => panic!("expected an update"),
    }
    match check_update("r1", "r2", zapp::ids::MOONLANDER_REVB_PID) {
        UpdateCheck::Available { download_url } => {
            assert_eq!(download_url, "https://oryx.zsa.io/firmware/r2?alt=true")
        }
        UpdateCheck::UpToDate => panic!("expected an update"),
    }
}

#[test]
fn known_revision_needs_no_lookup() {
    match revision_lookup("lay", Some("rev7")) {
        RevisionLookup::Known(rev) => assert_eq!(rev, "rev7"),
        RevisionLookup::FetchLatest { .. } => panic!("expected the given revision"),
    }
    match revision_lookup("lay", None) {
        RevisionLookup::FetchLatest { url } => {
            assert_eq!(url, "https://oryx.zsa.io/firmware/latest/lay")
        }
        RevisionLookup::Known(_) => panic!("expected a lookup"),
    }
}

#[test]
fn parse_url_result_stands_in_url() {
    let url = "https://configure.zsa.io/ergodox-ez/layouts/Lay0/Rev1//";
    let (layout, rev) = parse_url(url).unwrap();
    assert!(!layout.contains('/'));
    assert!(url.contains(&format!("/layouts/{}/{}", layout, rev.unwrap())));
    let (layout, rev) = parse_url("https://configure.zsa.io/kb/layouts/L//x").unwrap();
    assert_eq!(layout, "L");
    assert_eq!(rev, Some(""));
}
