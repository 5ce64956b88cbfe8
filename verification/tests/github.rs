use releasekit::client::{HeaderMap, HttpClient, Response};
use releasekit::platform::github::{releases_from_payload, GhAsset, GhRelease};
use releasekit::platform::ReleasePayload;
use releasekit::{Error, GitHub};

#[derive(Clone)]
struct MockClient;

impl HttpClient for MockClient {
    fn get(&self, url: &str, _headers: &HeaderMap) -> Result<Response, Error> {
        Err(Error::Http {
            status: 404,
            url: url.to_string(),
        })
    }
}

#[test]
fn github_default_api_url() {
    let gh = GitHub::new(MockClient);
    assert_eq!(
        gh.releases_url("owner/repo", None),
        "https://api.github.com/repos/owner/repo/releases?per_page=100"
    );
    assert_eq!(
        gh.releases_url("owner/repo", Some("v1.0")),
        "https://api.github.com/repos/owner/repo/releases/tags/v1.0"
    );
}

#[test]
fn github_enterprise_base_url() {
    let gh = GitHub::new(MockClient).with_base_url("https://github.example.com/api/v3/");
    assert_eq!(
        gh.releases_url("o/r", Some("release 1")),
        "https://github.example.com/api/v3/repos/o/r/releases/tags/release%201"
    );
}

#[test]
fn github_bearer_header() {
    let gh = GitHub::new(MockClient).with_token(" ghp_abc ");
    assert_eq!(gh.auth_headers().iter(), vec![("Authorization", "Bearer ghp_abc")]);
    assert!(GitHub::new(MockClient).auth_headers().iter().is_empty());
}

#[test]
fn github_token_candidates() {
    let values = vec![None, Some("tok".to_string())];
    let gh = GitHub::new(MockClient).with_token_candidates(&values);
    assert_eq!(gh.auth_headers().iter(), vec![("Authorization", "Bearer tok")]);
}

#[test]
fn github_conversion_keeps_sizes() {
    let release = GhRelease {
        name: None,
        tag_name: "v1".to_string(),
        prerelease: true,
        published_at: "2025-01-01T00:00:00Z".to_string(),
        body: Some(String::new()),
        assets: vec![GhAsset {
            name: "a.zip".to_string(),
            size: 0,
            browser_download_url: "https://example.com/a.zip".to_string(),
        }],
    };
    let releases = releases_from_payload(ReleasePayload::One(release)).unwrap();
    assert_eq!(releases.len(), 1);
    let r = &releases[0];
    assert_eq!(r.name(), None);
    assert_eq!(r.body(), Some(""));
    assert!(r.is_prerelease());
    assert_eq!(r.assets()[0].size(), Some(0));
    assert_eq!(r.assets()[0].url(), "https://example.com/a.zip");
}

#[test]
fn github_empty_list_gives_no_releases_but_ok() {
    let releases = releases_from_payload(ReleasePayload::Many(vec![])).unwrap();
    assert!(releases.is_empty());
    assert!(matches!(releases_from_payload(ReleasePayload::Other), Err(Error::NoReleases)));
}

#[test]
fn client_errors_pass_through() {
    let gh = GitHub::new(MockClient);
    let url = gh.releases_url("o/r", None);
    match gh.client().get(&url, &gh.auth_headers()) {
        Err(Error::Http { status, url: u }) => {
            assert_eq!(status, 404);
            assert_eq!(u, "https://api.github.com/repos/o/r/releases?per_page=100");
        }
        _ => panic!("expected an HTTP error"),
    }
}
