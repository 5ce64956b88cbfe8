use releasekit::url::PlatformUrl;

#[test]
fn github_basic() {
    let url = PlatformUrl::parse("https://github.com/owner/repo").unwrap();
    assert_eq!(
        url,
        PlatformUrl::GitHub {
            project: "owner/repo".to_string(),
            tag: None,
        }
    );
}

#[test]
fn github_with_tag() {
    let url = PlatformUrl::parse("https://github.com/owner/repo/releases/tag/v1.0").unwrap();
    assert_eq!(
        url,
        PlatformUrl::GitHub {
            project: "owner/repo".to_string(),
            tag: Some("v1.0".to_string()),
        }
    );
}

#[test]
fn gitlab_basic() {
    let url = PlatformUrl::parse("https://gitlab.com/owner/repo").unwrap();
    assert_eq!(
        url,
        PlatformUrl::GitLab {
            project: "owner/repo".to_string(),
            tag: None,
        }
    );
}

#[test]
fn codeberg_basic() {
    let url = PlatformUrl::parse("https://codeberg.org/owner/repo").unwrap();
    assert_eq!(
        url,
        PlatformUrl::Codeberg {
            project: "owner/repo".to_string(),
            tag: None,
        }
    );
}

#[test]
fn gitea_basic() {
    let url = PlatformUrl::parse("https://gitea.example.com/owner/repo").unwrap();
    assert_eq!(
        url,
        PlatformUrl::Gitea {
            instance: "gitea.example.com".to_string(),
            project: "owner/repo".to_string(),
            tag: None,
        }
    );
}

#[test]
fn gitea_with_tag() {
    let url =
        PlatformUrl::parse("https://gitea.example.com/owner/repo/releases/tag/v2.0").unwrap();
    assert_eq!(
        url,
        PlatformUrl::Gitea {
            instance: "gitea.example.com".to_string(),
            project: "owner/repo".to_string(),
            tag: Some("v2.0".to_string()),
        }
    );
}

#[test]
fn empty_input() {
    assert!(PlatformUrl::parse("").is_none());
    assert!(PlatformUrl::parse("   ").is_none());
}

#[test]
fn invalid_project() {
    assert!(PlatformUrl::parse("https://github.com/owner").is_none());
    assert!(PlatformUrl::parse("https://github.com/owner/").is_none());
}

#[test]
fn trailing_slash() {
    let url = PlatformUrl::parse("https://github.com/owner/repo/").unwrap();
    assert_eq!(
        url,
        PlatformUrl::GitHub {
            project: "owner/repo".to_string(),
            tag: None,
        }
    );
}

#[test]
fn surrounding_white_space_is_ignored() {
    let url = PlatformUrl::parse(" \t https://github.com/owner/repo \n").unwrap();
    assert_eq!(url, PlatformUrl::parse("https://github.com/owner/repo").unwrap());
    let wide = PlatformUrl::parse("\u{3000}https://gitlab.com/owner/repo\u{a0}").unwrap();
    assert_eq!(
        wide,
        PlatformUrl::GitLab {
            project: "owner/repo".to_string(),
            tag: None,
        }
    );
}

#[test]
fn plain_http_is_accepted() {
    let url = PlatformUrl::parse("http://codeberg.org/owner/repo/tags/v3").unwrap();
    assert_eq!(
        url,
        PlatformUrl::Codeberg {
            project: "owner/repo".to_string(),
            tag: Some("v3".to_string()),
        }
    );
}

#[test]
fn each_tag_marker_is_recognized() {
    let cases = [
        ("https://github.com/o/r/releases/tag/t1", "t1"),
        ("https://github.com/o/r/releases/t2", "t2"),
        ("https://github.com/o/r/tags/t3", "t3"),
        ("https://github.com/o/r/tag/t4", "t4"),
    ];
    for (input, tag) in cases {
        assert_eq!(
            PlatformUrl::parse(input).unwrap(),
            PlatformUrl::GitHub {
                project: "o/r".to_string(),
                tag: Some(tag.to_string()),
            }
        );
    }
}

#[test]
fn tag_with_slashes_is_kept_whole() {
    let url = PlatformUrl::parse("https://github.com/o/r/releases/tag/feature/x/").unwrap();
    assert_eq!(
        url,
        PlatformUrl::GitHub {
            project: "o/r".to_string(),
            tag: Some("feature/x".to_string()),
        }
    );
}

#[test]
fn marker_without_tag_falls_back_to_whole_path() {
    assert!(PlatformUrl::parse("https://github.com/owner/repo/releases/").is_none());
    assert!(PlatformUrl::parse("https://github.com/owner/repo/tree/main").is_none());
    assert!(PlatformUrl::parse("https://github.com//repo").is_none());
    assert!(PlatformUrl::parse("https://github.com/owner/releases/tag/v1").is_none());
}

#[test]
fn unknown_inputs_are_rejected() {
    assert!(PlatformUrl::parse("owner/repo").is_none());
    assert!(PlatformUrl::parse("ftp://github.com/owner/repo").is_none());
    assert!(PlatformUrl::parse("https://github.com").is_none());
    assert!(PlatformUrl::parse("https://gitea.example.com").is_none());
}

#[test]
fn non_ascii_project_is_kept() {
    let url = PlatformUrl::parse("https://gitea.exämple.org/ówner/répo/releases/tag/v1.0-β").unwrap();
    assert_eq!(
        url,
        PlatformUrl::Gitea {
            instance: "gitea.exämple.org".to_string(),
            project: "ówner/répo".to_string(),
            tag: Some("v1.0-β".to_string()),
        }
    );
}
