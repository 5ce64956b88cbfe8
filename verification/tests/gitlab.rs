use releasekit::client::{HeaderMap, HttpClient, Response};
use releasekit::platform::gitlab::{releases_from_payload, GlAssets, GlLink, GlRelease};
use releasekit::platform::{GitLab, ReleasePayload};
use releasekit::Error;

#[derive(Clone)]
struct MockClient;

impl HttpClient for MockClient {
    fn get(&self, _url: &str, _headers: &HeaderMap) -> Result<Response, Error> {
        Ok(Response {
            status: 200,
            body: String::new(),
        })
    }
}

fn link(id: u32, name: &str) -> GlLink {
    GlLink {
        name: name.to_string(),
        direct_asset_url: format!("https://gitlab.com/example/app/-/package_files/{id}/download"),
    }
}

fn sample_releases() -> Vec<GlRelease> {
    vec![
        GlRelease {
            name: Some("Version 1.0".to_string()),
            tag_name: "v1.0.0".to_string(),
            upcoming_release: false,
            released_at: "2025-01-15T10:30:00Z".to_string(),
            description: Some("First stable release".to_string()),
            assets: GlAssets {
                links: vec![link(1, "app-x86_64.AppImage"), link(2, "app-x86_64.tar.gz")],
            },
        },
        GlRelease {
            name: None,
            tag_name: "v0.9.0".to_string(),
            upcoming_release: true,
            released_at: "2024-12-01T08:00:00Z".to_string(),
            description: None,
            assets: GlAssets { links: vec![] },
        },
    ]
}

fn sample_single_release() -> GlRelease {
    GlRelease {
        name: Some("Version 2.0".to_string()),
        tag_name: "v2.0.0".to_string(),
        upcoming_release: false,
        released_at: "2025-06-01T12:00:00Z".to_string(),
        description: Some("Major update".to_string()),
        assets: GlAssets {
            links: vec![link(3, "app.tar.gz")],
        },
    }
}

#[test]
fn gitlab_parses_multiple_releases() {
    let releases = releases_from_payload(ReleasePayload::Many(sample_releases())).unwrap();

    assert_eq!(releases.len(), 2);

    let first = &releases[0];
    assert_eq!(first.tag(), "v1.0.0");
    assert_eq!(first.name(), Some("Version 1.0"));
    assert!(!first.is_prerelease());
    assert_eq!(first.published_at(), "2025-01-15T10:30:00Z");
    assert_eq!(first.body(), Some("First stable release"));
    assert_eq!(first.assets().len(), 2);

    let asset = &first.assets()[0];
    assert_eq!(asset.name(), "app-x86_64.AppImage");
    assert_eq!(asset.size(), None);
    assert_eq!(
        asset.url(),
        "https://gitlab.com/example/app/-/package_files/1/download"
    );

    let second = &releases[1];
    assert_eq!(second.tag(), "v0.9.0");
    assert_eq!(second.name(), None);
    assert!(second.is_prerelease());
    assert_eq!(second.body(), None);
    assert!(second.assets().is_empty());
}

#[test]
fn gitlab_parses_single_release() {
    let releases = releases_from_payload(ReleasePayload::One(sample_single_release())).unwrap();

    assert_eq!(releases.len(), 1);
    assert_eq!(releases[0].tag(), "v2.0.0");
    assert_eq!(releases[0].assets().len(), 1);
}

#[test]
fn gitlab_other_payload_is_no_releases() {
    assert!(matches!(
        releases_from_payload(ReleasePayload::Other),
        Err(Error::NoReleases)
    ));
}

#[test]
fn with_token_sends_private_token_header() {
    let gl = GitLab::new(MockClient).with_token("glpat-test123");
    let mut got_token = None;
    for (k, v) in gl.auth_headers().iter() {
        if k == "PRIVATE-TOKEN" {
            got_token = Some(v.to_string());
        }
    }
    assert_eq!(got_token.as_deref(), Some("glpat-test123"));
}

#[test]
fn gitlab_uses_correct_api_url() {
    let gl = GitLab::new(MockClient);
    assert_eq!(
        gl.releases_url("owner/repo", None),
        "https://gitlab.com/api/v4/projects/owner%2Frepo/releases"
    );
}

#[test]
fn custom_base_url() {
    let gl = GitLab::new(MockClient).with_base_url("https://gitlab.example.com");
    assert_eq!(
        gl.releases_url("owner/repo", None),
        "https://gitlab.example.com/api/v4/projects/owner%2Frepo/releases"
    );
}

#[test]
fn numeric_project_id() {
    let gl = GitLab::new(MockClient);
    assert_eq!(
        gl.releases_url("12345", None),
        "https://gitlab.com/api/v4/projects/12345/releases"
    );
}

#[test]
fn gitlab_tag_url() {
    let gl = GitLab::new(MockClient).with_base_url("https://gitlab.example.com/");
    assert_eq!(
        gl.releases_url("group/sub project", Some("v2.0.0+build")),
        "https://gitlab.example.com/api/v4/projects/group%2Fsub%20project/releases/v2.0.0%2Bbuild"
    );
}

#[test]
fn gitlab_empty_project_counts_as_numeric() {
    let gl = GitLab::new(MockClient);
    assert_eq!(gl.releases_url("", None), "https://gitlab.com/api/v4/projects//releases");
}

#[test]
fn gitlab_token_from_candidates() {
    let values = vec![None, Some("   ".to_string()), Some(" glpat-env \t".to_string()), Some("later".to_string())];
    let gl = GitLab::new(MockClient).with_token_candidates(&values);
    assert_eq!(gl.auth_headers().iter(), vec![("PRIVATE-TOKEN", "glpat-env")]);
}

#[test]
fn gitlab_token_set_before_candidates_stays() {
    let values = vec![Some("from-env".to_string())];
    let gl = GitLab::new(MockClient).with_token("explicit").with_token_candidates(&values);
    assert_eq!(gl.auth_headers().iter(), vec![("PRIVATE-TOKEN", "explicit")]);
}

#[test]
fn gitlab_no_usable_candidate_leaves_no_token() {
    let values = vec![None, Some("\n".to_string())];
    let gl = GitLab::new(MockClient).with_token_candidates(&values);
    assert!(gl.auth_headers().iter().is_empty());
}
