use releasekit::client::{HeaderMap, HttpClient, Response};
use releasekit::platform::gitea::{releases_from_payload, GtAsset, GtRelease};
use releasekit::platform::{Gitea, ReleasePayload};
use releasekit::Error;

#[derive(Clone)]
struct MockClient {
    response: String,
}

impl HttpClient for MockClient {
    fn get(&self, _url: &str, _headers: &HeaderMap) -> Result<Response, Error> {
        Ok(Response {
            status: 200,
            body: self.response.clone(),
        })
    }
}

fn mock() -> MockClient {
    MockClient {
        response: String::new(),
    }
}

fn sample_releases() -> Vec<GtRelease> {
    vec![
        GtRelease {
            name: Some("Version 1.0".to_string()),
            tag_name: "v1.0.0".to_string(),
            prerelease: false,
            published_at: "2025-01-15T10:30:00Z".to_string(),
            body: Some("First stable release".to_string()),
            assets: vec![
                GtAsset {
                    name: "app-x86_64.AppImage".to_string(),
                    size: 5242880,
                    browser_download_url: "https://codeberg.org/owner/repo/releases/download/v1.0.0/app-x86_64.AppImage".to_string(),
                },
                GtAsset {
                    name: "app-x86_64.tar.gz".to_string(),
                    size: 3145728,
                    browser_download_url: "https://codeberg.org/owner/repo/releases/download/v1.0.0/app-x86_64.tar.gz".to_string(),
                },
            ],
        },
        GtRelease {
            name: None,
            tag_name: "v0.9.0".to_string(),
            prerelease: true,
            published_at: "2024-12-01T08:00:00Z".to_string(),
            body: None,
            assets: vec![],
        },
    ]
}

fn sample_single_release() -> GtRelease {
    GtRelease {
        name: Some("Version 2.0".to_string()),
        tag_name: "v2.0.0".to_string(),
        prerelease: false,
        published_at: "2025-06-01T12:00:00Z".to_string(),
        body: Some("Major update".to_string()),
        assets: vec![GtAsset {
            name: "app.tar.gz".to_string(),
            size: 1024,
            browser_download_url: "https://codeberg.org/owner/repo/releases/download/v2.0.0/app.tar.gz".to_string(),
        }],
    }
}

#[test]
fn gitea_parses_multiple_releases() {
    let releases = releases_from_payload(ReleasePayload::Many(sample_releases())).unwrap();

    assert_eq!(releases.len(), 2);

    let first = &releases[0];
    assert_eq!(first.tag(), "v1.0.0");
    assert_eq!(first.name(), Some("Version 1.0"));
    assert!(!first.is_prerelease());
    assert_eq!(first.published_at(), "2025-01-15T10:30:00Z");
    assert_eq!(first.body(), Some("First stable release"));
    assert_eq!(first.assets().len(), 2);

    let asset = &first.assets()[0];
    assert_eq!(asset.name(), "app-x86_64.AppImage");
    assert_eq!(asset.size(), Some(5_242_880));
    assert_eq!(
        asset.url(),
        "https://codeberg.org/owner/repo/releases/download/v1.0.0/app-x86_64.AppImage"
    );

    let second = &releases[1];
    assert_eq!(second.tag(), "v0.9.0");
    assert_eq!(second.name(), None);
    assert!(second.is_prerelease());
    assert_eq!(second.body(), None);
    assert!(second.assets().is_empty());
}

#[test]
fn gitea_parses_single_release() {
    let releases = releases_from_payload(ReleasePayload::One(sample_single_release())).unwrap();

    assert_eq!(releases.len(), 1);
    assert_eq!(releases[0].tag(), "v2.0.0");
    assert_eq!(releases[0].assets().len(), 1);
}

#[test]
fn gitea_other_payload_is_no_releases() {
    let result = releases_from_payload(ReleasePayload::Other);
    assert!(matches!(result, Err(Error::NoReleases)));
}

#[test]
fn with_token_sends_auth_header() {
    let gt = Gitea::new(mock(), "https://codeberg.org").with_token("test-token-123");
    let headers = gt.auth_headers();
    let mut got_auth = None;
    for (k, v) in headers.iter() {
        if k == "Authorization" {
            got_auth = Some(v.to_string());
        }
    }
    assert_eq!(got_auth.as_deref(), Some("token test-token-123"));
}

#[test]
fn gitea_uses_correct_api_url() {
    let gt = Gitea::new(mock(), "https://codeberg.org");
    assert_eq!(
        gt.releases_url("owner/repo", None),
        "https://codeberg.org/api/v1/repos/owner/repo/releases?limit=50"
    );
}

#[test]
fn custom_gitea_instance() {
    let gt = Gitea::new(mock(), "https://gitea.example.com");
    assert_eq!(
        gt.releases_url("owner/repo", Some("v2.0.0")),
        "https://gitea.example.com/api/v1/repos/owner/repo/releases/tags/v2.0.0"
    );
}

#[test]
fn gitea_base_url_loses_trailing_slashes() {
    let gt = Gitea::new(mock(), "https://gitea.example.com//");
    assert_eq!(
        gt.releases_url("o/r", None),
        "https://gitea.example.com/api/v1/repos/o/r/releases?limit=50"
    );
}

#[test]
fn gitea_tag_is_url_encoded() {
    let gt = Gitea::new(mock(), "https://codeberg.org");
    assert_eq!(
        gt.releases_url("o/r", Some("v1 beta/é")),
        "https://codeberg.org/api/v1/repos/o/r/releases/tags/v1%20beta%2F%C3%A9"
    );
}

#[test]
fn gitea_without_token_sends_no_header() {
    let gt = Gitea::new(mock(), "https://codeberg.org");
    assert!(gt.auth_headers().iter().is_empty());
}

#[test]
fn gitea_token_is_trimmed_in_header() {
    let gt = Gitea::new(mock(), "https://codeberg.org").with_token("  abc \n");
    assert_eq!(gt.auth_headers().iter(), vec![("Authorization", "token abc")]);
}

#[test]
fn gitea_client_is_kept() {
    let gt = Gitea::new(
        MockClient {
            response: "body".to_string(),
        },
        "https://codeberg.org",
    )
    .with_token("t");
    let resp = gt.client().get("any", &HeaderMap::new()).unwrap();
    assert_eq!(resp.body, "body");
    assert_eq!(resp.status, 200);
}
