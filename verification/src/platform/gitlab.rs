//! GitLab platform implementation.

use vstd::prelude::*;
use vstd::string::StringExecFns;
use vstd::utf8::encode_utf8;
use crate::client::{HeaderMap, HttpClient};
use crate::error::Error;
use crate::model::{assets_view, releases_view, Asset, AssetView, Release, ReleaseView};
use crate::platform::{
    encode_component, hex_digit, is_unreserved, opt_strings_view, percent_encode,
    percent_encode_byte, select_token, token_from_candidates, url_encode, ReleasePayload,
};
use crate::text::{
    all_ascii_digits, chars_of, opt_chars, owned, trim, trim_end_char, trim_end_char_str, trim_str,
};

verus! {

broadcast use vstd::string::group_string_axioms;

/// A GitLab client for fetching releases.
///
/// Wraps any [`HttpClient`] implementation and optionally stores a
/// personal access token for private repositories.
pub struct GitLab<C: HttpClient> {
    client: C,
    token: Option<String>,
    base_url: String,
}

/// A release as the GitLab API describes it.
pub struct GlRelease {
    pub name: Option<String>,
    pub tag_name: String,
    pub upcoming_release: bool,
    pub released_at: String,
    pub description: Option<String>,
    pub assets: GlAssets,
}

/// The assets of a GitLab release.
pub struct GlAssets {
    pub links: Vec<GlLink>,
}

/// A release link as the GitLab API describes it.
pub struct GlLink {
    pub name: String,
    pub direct_asset_url: String,
}

/// The asset that a GitLab release link becomes: it has no size.
pub open spec fn gl_asset_view(l: GlLink) -> AssetView {
    AssetView { name: l.name@, size: None, url: l.direct_asset_url@ }
}

/// The release that a GitLab release becomes: an upcoming release is a
/// prerelease, the release date is the publication date and the description
/// is the body.
pub open spec fn gl_release_view(g: GlRelease) -> ReleaseView {
    ReleaseView {
        name: opt_chars(g.name),
        tag: g.tag_name@,
        prerelease: g.upcoming_release,
        published_at: g.released_at@,
        body: opt_chars(g.description),
        assets: g.assets.links@.map_values(|l: GlLink| gl_asset_view(l)),
    }
}

impl GlLink {
    /// The asset this GitLab release link describes.
    pub fn to_asset(&self) -> (a: Asset)
        ensures
            a@ == gl_asset_view(*self),
    {
        Asset::from_parts(self.name.clone(), None, self.direct_asset_url.clone())
    }
}

impl GlRelease {
    /// The release this GitLab release describes.
    pub fn to_release(&self) -> (r: Release)
        ensures
            r@ == gl_release_view(*self),
            r@.name == opt_chars(self.name),
            r@.tag == self.tag_name@,
            r@.prerelease == self.upcoming_release,
            r@.published_at == self.released_at@,
            r@.body == opt_chars(self.description),
            r@.assets.len() == self.assets.links@.len(),
            forall|i: int|
                0 <= i < self.assets.links@.len() ==> (#[trigger] r@.assets[i]).name == self.assets.links@[i].name@
                    && r@.assets[i].size == None::<u64> && r@.assets[i].url == self.assets.links@[i].direct_asset_url@,
    {
        let links = &self.assets.links;
        let mut assets: Vec<Asset> = Vec::new();
        let mut i: usize = 0;
        while i < links.len()
            invariant
                0 <= i <= links@.len(),
                links == &self.assets.links,
                assets_view(assets@) == links@.take(i as int).map_values(
                    |l: GlLink| gl_asset_view(l),
                ),
            decreases links@.len() - i,
        {
            let a = links[i].to_asset();
            let ghost prev = assets@;
            assets.push(a);
            assert(assets_view(assets@) =~= assets_view(prev).push(gl_asset_view(links@[i as int])));
            assert(links@.take(i + 1) =~= links@.take(i as int).push(links@[i as int]));
            assert(assets_view(assets@) =~= links@.take(i + 1).map_values(
                |l: GlLink| gl_asset_view(l),
            ));
            i = i + 1;
        }
        assert(links@.take(i as int) =~= links@);
        assert forall|i: int| 0 <= i < assets@.len() implies #[trigger] assets_view(assets@)[i]
            == assets@[i]@ by {}
        Release::from_parts(
            self.name.clone(),
            self.tag_name.clone(),
            self.upcoming_release,
            self.released_at.clone(),
            self.description.clone(),
            assets,
        )
    }
}

/// The releases of a decoded GitLab answer: each release of a list, the
/// single release of an object, and `NoReleases` for anything else.
pub fn releases_from_payload(payload: ReleasePayload<GlRelease>) -> (r: Result<
    Vec<Release>,
    Error,
>)
    ensures
        match payload {
            ReleasePayload::Many(v) => r matches Ok(rs) && releases_view(rs@) == v@.map_values(
                |g: GlRelease| gl_release_view(g),
            ),
            ReleasePayload::One(g) => r matches Ok(rs) && releases_view(rs@) == seq![
                gl_release_view(g),
            ],
            ReleasePayload::Other => r matches Err(Error::NoReleases),
        },
        payload matches ReleasePayload::Many(v) ==> r matches Ok(rs) && rs@.len() == v@.len() && forall|
            i: int,
        |
            0 <= i < v@.len() ==> (#[trigger] rs@[i])@.tag == v@[i].tag_name@ && (#[trigger] rs@[i])@.name == opt_chars(v@[i].name) && (#[trigger] rs@[i])@.prerelease == v@[i].upcoming_release && (#[trigger] rs@[i])@.published_at == v@[i].released_at@ && (#[trigger] rs@[i])@.body == opt_chars(v@[i].description) && (#[trigger] rs@[i])@.assets.len() == v@[i].assets.links@.len(),
        payload matches ReleasePayload::One(g) ==> r matches Ok(rs) && rs@.len() == 1 && (rs@[0])@.tag == g.tag_name@ && (rs@[0])@.name == opt_chars(g.name) && (rs@[0])@.prerelease == g.upcoming_release && (rs@[0])@.published_at == g.released_at@ && (rs@[0])@.body == opt_chars(g.description) && (rs@[0])@.assets.len() == g.assets.links@.len(),
{
    match payload {
        ReleasePayload::Many(v) => {
            let mut out: Vec<Release> = Vec::new();
            let mut i: usize = 0;
            while i < v.len()
                invariant
                    0 <= i <= v@.len(),
                    releases_view(out@) == v@.take(i as int).map_values(
                        |g: GlRelease| gl_release_view(g),
                    ),
                decreases v@.len() - i,
            {
                let rel = v[i].to_release();
                let ghost prev = out@;
                out.push(rel);
                assert(releases_view(out@) =~= releases_view(prev).push(gl_release_view(v@[i as int])));
                assert(v@.take(i + 1) =~= v@.take(i as int).push(v@[i as int]));
                assert(releases_view(out@) =~= v@.take(i + 1).map_values(
                    |g: GlRelease| gl_release_view(g),
                ));
                i = i + 1;
            }
            assert(v@.take(i as int) =~= v@);
            assert forall|i: int| 0 <= i < v@.len() implies (#[trigger] out@[i])@.tag == v@[i].tag_name@
                && out@[i]@.name == opt_chars(v@[i].name) && out@[i]@.prerelease == v@[i].upcoming_release
                && out@[i]@.published_at == v@[i].released_at@ && out@[i]@.body == opt_chars(v@[i].description)
                && out@[i]@.assets.len() == v@[i].assets.links@.len() by {
                assert(releases_view(out@)[i] == out@[i]@);
                assert(releases_view(out@)[i] == gl_release_view(v@[i]));
            }
            Ok(out)
        },
        ReleasePayload::One(g) => {
            let mut out: Vec<Release> = Vec::new();
            out.push(g.to_release());
            assert(releases_view(out@) =~= seq![gl_release_view(g)]);
            assert(releases_view(out@)[0] == out@[0]@);
            Ok(out)
        },
        ReleasePayload::Other => Err(Error::NoReleases),
    }
}

impl<C: HttpClient> GitLab<C> {
    /// The HTTP backend.
    pub closed spec fn client_view(&self) -> C {
        self.client
    }

    /// The authentication token, if any.
    pub closed spec fn token_view(&self) -> Option<Seq<char>> {
        opt_chars(self.token)
    }

    /// The API base URL.
    pub closed spec fn base_url_view(&self) -> Seq<char> {
        self.base_url@
    }

    /// Creates a new GitLab client with the given HTTP backend.
    ///
    /// Defaults to `https://gitlab.com`. Use [`GitLab::with_base_url`] for
    /// self-hosted instances.
    pub fn new(client: C) -> (r: Self)
        ensures
            r.client_view() == client,
            r.token_view() is None,
            r.base_url_view() == "https://gitlab.com"@,
    {
        GitLab { client, token: None, base_url: owned("https://gitlab.com") }
    }

    /// Sets a custom base URL for the GitLab instance. Trailing slashes are
    /// stripped.
    pub fn with_base_url(self, url: &str) -> (r: Self)
        ensures
            r.client_view() == self.client_view(),
            r.token_view() == self.token_view(),
            r.base_url_view() == trim_end_char(url@, '/'),
    {
        let mut r = self;
        r.base_url = owned(trim_end_char_str(url, '/'));
        r
    }

    /// Sets a GitLab personal access token for authentication.
    pub fn with_token(self, token: &str) -> (r: Self)
        ensures
            r.client_view() == self.client_view(),
            r.token_view() == Some(token@),
            r.base_url_view() == self.base_url_view(),
    {
        let mut r = self;
        r.token = Some(owned(token));
        r
    }

    /// Offers token candidates, such as the values of environment variables
    /// in order (`None` for one that is not set): the first that is not
    /// blank becomes the token, trimmed. A token already set stays.
    pub fn with_token_candidates(self, values: &Vec<Option<String>>) -> (r: Self)
        ensures
            r.client_view() == self.client_view(),
            r.token_view() == token_from_candidates(self.token_view(), opt_strings_view(values@)),
            r.base_url_view() == self.base_url_view(),
    {
        let mut r = self;
        let current = r.token.clone();
        r.token = select_token(current, values);
        r
    }

    /// The HTTP backend.
    pub fn client(&self) -> (c: &C)
        ensures
            *c == self.client_view(),
    {
        &self.client
    }

    /// The headers of a request: `PRIVATE-TOKEN: <token>` with the token
    /// trimmed, when a token is set.
    pub fn auth_headers(&self) -> (h: HeaderMap)
        ensures
            h@ == match self.token_view() {
                Some(t) => seq![("PRIVATE-TOKEN"@, trim(t))],
                None => Seq::empty(),
            },
    {
        let mut headers = HeaderMap::new();
        match &self.token {
            Some(token) => {
                headers.insert("PRIVATE-TOKEN", trim_str(token.as_str()));
                assert(headers@ =~= seq![("PRIVATE-TOKEN"@, trim(token@))]);
            },
            None => {},
        }
        headers
    }

    /// The API URL of the releases of `project`: those of `tag` alone (URL
    /// encoded) when one is given, else all of them. A numeric project ID
    /// stands as it is; an `owner/repo` project is URL-encoded.
    pub fn releases_url(&self, project: &str, tag: Option<&str>) -> (u: String)
        ensures
            u@ == match tag {
                Some(t) => self.base_url_view() + "/api/v4/projects/"@ + project_ref(project@)
                    + "/releases/"@ + url_encode(t@),
                None => self.base_url_view() + "/api/v4/projects/"@ + project_ref(project@)
                    + "/releases"@,
            },
    {
        let project_ref = if is_numeric_id(project) {
            owned(project)
        } else {
            encode_component(project)
        };
        let mut url = owned(self.base_url.as_str());
        url.append("/api/v4/projects/");
        url.append(project_ref.as_str());
        match tag {
            Some(t) => {
                let enc = encode_component(t);
                url.append("/releases/");
                url.append(enc.as_str());
            },
            None => {
                url.append("/releases");
            },
        }
        url
    }
}

/// How a project appears in a GitLab API URL: a numeric ID as it is,
/// anything else URL-encoded.
pub open spec fn project_ref(project: Seq<char>) -> Seq<char> {
    if all_ascii_digits(project) {
        project
    } else {
        url_encode(project)
    }
}

/// Whether every character of `project` is an ASCII digit.
fn is_numeric_id(project: &str) -> (b: bool)
    ensures
        b == all_ascii_digits(project@),
{
    let v = chars_of(project);
    let mut i: usize = 0;
    while i < v.len()
        invariant
            0 <= i <= v@.len(),
            v@ == project@,
            forall|j: int| 0 <= j < i ==> '0' <= #[trigger] v@[j] <= '9',
        decreases v@.len() - i,
    {
        if !('0' <= v[i] && v[i] <= '9') {
            return false;
        }
        i = i + 1;
    }
    true
}

/// A numeric project ID appears in the URL unchanged.
pub proof fn lemma_numeric_project_unchanged(project: Seq<char>)
    requires
        forall|i: int| 0 <= i < project.len() ==> '0' <= #[trigger] project[i] <= '9',
    ensures
        project_ref(project) == project,
{
}

/// Percent-encoded bytes hold no slash.
proof fn lemma_percent_encode_no_slash(bytes: Seq<u8>)
    ensures
        !percent_encode(bytes).contains('/'),
    decreases bytes.len(),
{
    if bytes.len() > 0 {
        lemma_percent_encode_no_slash(bytes.drop_first());
        let b = bytes[0];
        let head = percent_encode_byte(b);
        let tail = percent_encode(bytes.drop_first());
        assert forall|i: int| 0 <= i < head.len() implies head[i] != '/' by {
            if !is_unreserved(b) && i > 0 {
                let d = if i == 1 { b / 16 } else { b % 16 };
                assert(d < 16);
                assert(head[i] == hex_digit(d));
            }
        }
        assert forall|i: int| 0 <= i < (head + tail).len() implies (head + tail)[i] != '/' by {
            if i >= head.len() {
                assert((head + tail)[i] == tail[i - head.len()]);
                assert(!tail.contains('/'));
            }
        }
    }
}

/// A project that is not a numeric ID appears URL-encoded: whatever it
/// holds, its slashes included, no slash of it is left in the URL.
pub proof fn lemma_named_project_encoded(project: Seq<char>)
    requires
        exists|i: int| 0 <= i < project.len() && !('0' <= #[trigger] project[i] <= '9'),
    ensures
        project_ref(project) == url_encode(project),
        !project_ref(project).contains('/'),
{
    lemma_percent_encode_no_slash(encode_utf8(project));
}

} // verus!
