use releasekit::client::HeaderMap;
use releasekit::{Asset, Release};

#[test]
fn release_from_parts_round_trips_through_getters() {
    let asset = Asset::from_parts("x.tar.gz".to_string(), Some(7), "https://e/x".to_string());
    let release = Release::from_parts(
        Some("Name".to_string()),
        "v1".to_string(),
        false,
        "2025-01-01T00:00:00Z".to_string(),
        None,
        vec![asset],
    );
    assert_eq!(release.name(), Some("Name"));
    assert_eq!(release.tag(), "v1");
    assert!(!release.is_prerelease());
    assert_eq!(release.published_at(), "2025-01-01T00:00:00Z");
    assert_eq!(release.body(), None);
    assert_eq!(release.assets().len(), 1);
    assert_eq!(release.assets()[0].name(), "x.tar.gz");
    assert_eq!(release.assets()[0].size(), Some(7));
    assert_eq!(release.assets()[0].url(), "https://e/x");
}

#[test]
fn header_map_keeps_insertion_order() {
    let mut headers = HeaderMap::new();
    assert!(headers.iter().is_empty());
    headers.insert("User-Agent", "releasekit");
    headers.insert("Authorization", "Bearer x");
    headers.insert("User-Agent", "again");
    assert_eq!(
        headers.iter(),
        vec![("User-Agent", "releasekit"), ("Authorization", "Bearer x"), ("User-Agent", "again")]
    );
    let default: HeaderMap = Default::default();
    assert!(default.iter().is_empty());
}
