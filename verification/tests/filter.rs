use releasekit::filter::Filter;

#[test]
fn glob_match() {
    let filter = Filter::new().glob("*.AppImage");
    assert!(filter.matches("app-1.0.AppImage"));
    assert!(!filter.matches("app-1.0.tar.gz"));
}

#[test]
fn include_keyword() {
    let filter = Filter::new().includes("x86_64");
    assert!(filter.matches("app-x86_64.AppImage"));
    assert!(!filter.matches("app-arm64.AppImage"));
}

#[test]
fn exclude_keyword() {
    let filter = Filter::new().exclude("debug");
    assert!(!filter.matches("app-debug.AppImage"));
    assert!(filter.matches("app-1.0.AppImage"));
}

#[test]
fn combined_filters() {
    let filter = Filter::new()
        .glob("*.AppImage")
        .includes("x86_64")
        .exclude("debug");
    assert!(filter.matches("app-x86_64.AppImage"));
    assert!(!filter.matches("app-x86_64-debug.AppImage"));
    assert!(!filter.matches("app-arm64.AppImage"));
}

#[test]
fn empty_filter_matches_all() {
    let filter = Filter::new();
    assert!(filter.matches("anything"));
}

#[test]
fn case_insensitive_by_default() {
    let filter = Filter::new().includes("x86_64");
    assert!(filter.matches("APP-X86_64.AppImage"));
}

#[test]
fn case_sensitive_mode() {
    let filter = Filter::new().case_sensitive(true).includes("x86_64");
    assert!(filter.matches("app-x86_64.AppImage"));
    assert!(!filter.matches("APP-X86_64.AppImage"));
}

#[test]
fn doc_example() {
    let filter = Filter::new()
        .glob("*.AppImage")
        .includes("x86_64")
        .exclude("debug");
    assert!(filter.matches("app-x86_64.AppImage"));
    assert!(!filter.matches("app-x86_64-debug.AppImage"));
}

#[test]
fn new_filter_matches_every_name() {
    let filter = Filter::new();
    for name in ["", "a", "APP.tar.gz", "ünïcode", "with space"] {
        assert!(filter.matches(name));
    }
}

#[test]
fn globs_are_ored() {
    let filter = Filter::new().glob("*.tar.gz").glob("*.AppImage");
    assert!(filter.matches("app.tar.gz"));
    assert!(filter.matches("app.AppImage"));
    assert!(!filter.matches("app.zip"));
}

#[test]
fn required_keywords_are_ored() {
    let filter = Filter::new().includes("x86_64").includes("amd64");
    assert!(filter.matches("app-amd64.deb"));
    assert!(filter.matches("app-x86_64.deb"));
    assert!(!filter.matches("app-arm64.deb"));
}

#[test]
fn exclude_rejects_only_names_containing_it() {
    let base = Filter::new().glob("*.deb");
    let narrowed = base.clone().exclude("debug").exclude("dbg");
    assert!(base.matches("app-dbg.deb"));
    assert!(!narrowed.matches("app-dbg.deb"));
    assert!(!narrowed.matches("app-DEBUG.deb"));
    assert!(narrowed.matches("app.deb"));
    assert!(!narrowed.matches("app.rpm"));
}

#[test]
fn glob_patterns_are_lowercased_by_default() {
    let filter = Filter::new().glob("*.APPIMAGE");
    assert!(filter.matches("tool.AppImage"));
    let strict = Filter::new().case_sensitive(true).glob("*.APPIMAGE");
    assert!(!strict.matches("tool.AppImage"));
    assert!(strict.matches("tool.APPIMAGE"));
}

#[test]
fn glob_syntax_comes_from_the_glob_crate() {
    let filter = Filter::new().glob("app-{linux,macos}-?.tar.gz");
    assert!(filter.matches("app-linux-1.tar.gz"));
    assert!(filter.matches("app-macos-2.tar.gz"));
    assert!(!filter.matches("app-windows-1.tar.gz"));
    assert!(!filter.matches("app-linux-10.tar.gz"));
}

#[test]
fn empty_keyword_is_contained_in_every_name() {
    assert!(Filter::new().includes("").matches("anything"));
    assert!(!Filter::new().exclude("").matches("anything"));
}

#[test]
fn keyword_longer_than_name_is_not_contained() {
    assert!(!Filter::new().includes("x86_64-linux").matches("x86"));
}

#[test]
fn case_sensitive_can_be_turned_back_off() {
    let filter = Filter::new().case_sensitive(true).case_sensitive(false).includes("ABC");
    assert!(filter.matches("xabcx"));
}

#[test]
fn matches_normalized_takes_the_compared_form() {
    let filter = Filter::new().includes("ABC").exclude("Tmp");
    assert!(filter.matches_normalized("xabcx"));
    assert!(!filter.matches_normalized("xABCx"));
    assert!(!filter.matches_normalized("abc-tmp"));
    assert!(filter.matches("xABCx"));
}
