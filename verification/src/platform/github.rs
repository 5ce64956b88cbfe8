//! GitHub platform implementation.

use vstd::prelude::*;
use vstd::string::StringExecFns;
use crate::client::{HeaderMap, HttpClient};
use crate::error::Error;
use crate::model::{assets_view, releases_view, Asset, AssetView, Release, ReleaseView};
use crate::platform::{
    encode_component, opt_strings_view, select_token, token_from_candidates, url_encode,
    ReleasePayload,
};
use crate::text::{opt_chars, owned, trim, trim_end_char, trim_end_char_str, trim_str};

verus! {

broadcast use vstd::string::group_string_axioms;

/// A GitHub client for fetching releases.
///
/// Wraps any [`HttpClient`] implementation and optionally stores an
/// authentication token for private repositories or higher rate limits.
pub struct GitHub<C: HttpClient> {
    client: C,
    token: Option<String>,
    base_url: String,
}

/// A release as the GitHub API describes it.
pub struct GhRelease {
    pub name: Option<String>,
    pub tag_name: String,
    pub prerelease: bool,
    pub published_at: String,
    pub body: Option<String>,
    pub assets: Vec<GhAsset>,
}

/// A release asset as the GitHub API describes it.
pub struct GhAsset {
    pub name: String,
    pub size: u64,
    pub browser_download_url: String,
}

/// The asset that a GitHub asset becomes.
pub open spec fn gh_asset_view(a: GhAsset) -> AssetView {
    AssetView { name: a.name@, size: Some(a.size), url: a.browser_download_url@ }
}

/// The release that a GitHub release becomes.
pub open spec fn gh_release_view(g: GhRelease) -> ReleaseView {
    ReleaseView {
        name: opt_chars(g.name),
        tag: g.tag_name@,
        prerelease: g.prerelease,
        published_at: g.published_at@,
        body: opt_chars(g.body),
        assets: g.assets@.map_values(|a: GhAsset| gh_asset_view(a)),
    }
}

impl GhAsset {
    /// The asset this GitHub asset describes.
    pub fn to_asset(&self) -> (a: Asset)
        ensures
            a@ == gh_asset_view(*self),
    {
        Asset::from_parts(
            self.name.clone(),
            Some(self.size),
            self.browser_download_url.clone(),
        )
    }
}

impl GhRelease {
    /// The release this GitHub release describes.
    pub fn to_release(&self) -> (r: Release)
        ensures
            r@ == gh_release_view(*self),
            r@.name == opt_chars(self.name),
            r@.tag == self.tag_name@,
            r@.prerelease == self.prerelease,
            r@.published_at == self.published_at@,
            r@.body == opt_chars(self.body),
            r@.assets.len() == self.assets@.len(),
            forall|i: int|
                0 <= i < self.assets@.len() ==> (#[trigger] r@.assets[i]).name == self.assets@[i].name@
                    && r@.assets[i].size == Some(self.assets@[i].size) && r@.assets[i].url == self.assets@[i].browser_download_url@,
    {
        let mut assets: Vec<Asset> = Vec::new();
        let mut i: usize = 0;
        while i < self.assets.len()
            invariant
                0 <= i <= self.assets@.len(),
                assets_view(assets@) == self.assets@.take(i as int).map_values(
                    |a: GhAsset| gh_asset_view(a),
                ),
            decreases self.assets@.len() - i,
        {
            let a = self.assets[i].to_asset();
            let ghost prev = assets@;
            assets.push(a);
            assert(assets_view(assets@) =~= assets_view(prev).push(
                gh_asset_view(self.assets@[i as int]),
            ));
            assert(self.assets@.take(i + 1) =~= self.assets@.take(i as int).push(
                self.assets@[i as int],
            ));
            assert(assets_view(assets@) =~= self.assets@.take(i + 1).map_values(
                |a: GhAsset| gh_asset_view(a),
            ));
            i = i + 1;
        }
        assert(self.assets@.take(i as int) =~= self.assets@);
        assert forall|i: int| 0 <= i < assets@.len() implies #[trigger] assets_view(assets@)[i]
            == assets@[i]@ by {}
        Release::from_parts(
            self.name.clone(),
            self.tag_name.clone(),
            self.prerelease,
            self.published_at.clone(),
            self.body.clone(),
            assets,
        )
    }
}

/// The releases of a decoded GitHub answer: each release of a list, the
/// single release of an object, and `NoReleases` for anything else.
pub fn releases_from_payload(payload: ReleasePayload<GhRelease>) -> (r: Result<
    Vec<Release>,
    Error,
>)
    ensures
        match payload {
            ReleasePayload::Many(v) => r matches Ok(rs) && releases_view(rs@) == v@.map_values(
                |g: GhRelease| gh_release_view(g),
            ),
            ReleasePayload::One(g) => r matches Ok(rs) && releases_view(rs@) == seq![
                gh_release_view(g),
            ],
            ReleasePayload::Other => r matches Err(Error::NoReleases),
        },
        payload matches ReleasePayload::Many(v) ==> r matches Ok(rs) && rs@.len() == v@.len() && forall|
            i: int,
        |
            0 <= i < v@.len() ==> (#[trigger] rs@[i])@.tag == v@[i].tag_name@ && (#[trigger] rs@[i])@.name == opt_chars(v@[i].name) && (#[trigger] rs@[i])@.prerelease == v@[i].prerelease && (#[trigger] rs@[i])@.published_at == v@[i].published_at@ && (#[trigger] rs@[i])@.body == opt_chars(v@[i].body) && (#[trigger] rs@[i])@.assets.len() == v@[i].assets@.len(),
        payload matches ReleasePayload::One(g) ==> r matches Ok(rs) && rs@.len() == 1 && (rs@[0])@.tag == g.tag_name@ && (rs@[0])@.name == opt_chars(g.name) && (rs@[0])@.prerelease == g.prerelease && (rs@[0])@.published_at == g.published_at@ && (rs@[0])@.body == opt_chars(g.body) && (rs@[0])@.assets.len() == g.assets@.len(),
{
    match payload {
        ReleasePayload::Many(v) => {
            let mut out: Vec<Release> = Vec::new();
            let mut i: usize = 0;
            while i < v.len()
                invariant
                    0 <= i <= v@.len(),
                    releases_view(out@) == v@.take(i as int).map_values(
                        |g: GhRelease| gh_release_view(g),
                    ),
                decreases v@.len() - i,
            {
                let rel = v[i].to_release();
                let ghost prev = out@;
                out.push(rel);
                assert(releases_view(out@) =~= releases_view(prev).push(gh_release_view(v@[i as int])));
                assert(v@.take(i + 1) =~= v@.take(i as int).push(v@[i as int]));
                assert(releases_view(out@) =~= v@.take(i + 1).map_values(
                    |g: GhRelease| gh_release_view(g),
                ));
                i = i + 1;
            }
            assert(v@.take(i as int) =~= v@);
            assert forall|i: int| 0 <= i < v@.len() implies (#[trigger] out@[i])@.tag == v@[i].tag_name@
                && out@[i]@.name == opt_chars(v@[i].name) && out@[i]@.prerelease == v@[i].prerelease
                && out@[i]@.published_at == v@[i].published_at@ && out@[i]@.body == opt_chars(v@[i].body)
                && out@[i]@.assets.len() == v@[i].assets@.len() by {
                assert(releases_view(out@)[i] == out@[i]@);
                assert(releases_view(out@)[i] == gh_release_view(v@[i]));
            }
            Ok(out)
        },
        ReleasePayload::One(g) => {
            let mut out: Vec<Release> = Vec::new();
            out.push(g.to_release());
            assert(releases_view(out@) =~= seq![gh_release_view(g)]);
            assert(releases_view(out@)[0] == out@[0]@);
            Ok(out)
        },
        ReleasePayload::Other => Err(Error::NoReleases),
    }
}

impl<C: HttpClient> GitHub<C> {
    /// The HTTP backend.
    pub closed spec fn client_view(&self) -> C {
        self.client
    }

    /// The authentication token, if any.
    pub closed spec fn token_view(&self) -> Option<Seq<char>> {
        opt_chars(self.token)
    }

    /// The API base URL.
    pub closed spec fn base_url_view(&self) -> Seq<char> {
        self.base_url@
    }

    /// Creates a new GitHub client with the given HTTP backend.
    pub fn new(client: C) -> (r: Self)
        ensures
            r.client_view() == client,
            r.token_view() is None,
            r.base_url_view() == "https://api.github.com"@,
    {
        GitHub { client, token: None, base_url: owned("https://api.github.com") }
    }

    /// Sets a custom base URL for the GitHub API.
    ///
    /// Useful for GitHub Enterprise or API proxies. Trailing slashes are
    /// stripped automatically.
    pub fn with_base_url(self, url: &str) -> (r: Self)
        ensures
            r.client_view() == self.client_view(),
            r.token_view() == self.token_view(),
            r.base_url_view() == trim_end_char(url@, '/'),
    {
        let mut r = self;
        r.base_url = owned(trim_end_char_str(url, '/'));
        r
    }

    /// Sets a GitHub personal access token for authentication.
    pub fn with_token(self, token: &str) -> (r: Self)
        ensures
            r.client_view() == self.client_view(),
            r.token_view() == Some(token@),
            r.base_url_view() == self.base_url_view(),
    {
        let mut r = self;
        r.token = Some(owned(token));
        r
    }

    /// Offers token candidates, such as the values of environment variables
    /// in order (`None` for one that is not set): the first that is not
    /// blank becomes the token, trimmed. A token already set stays.
    pub fn with_token_candidates(self, values: &Vec<Option<String>>) -> (r: Self)
        ensures
            r.client_view() == self.client_view(),
            r.token_view() == token_from_candidates(self.token_view(), opt_strings_view(values@)),
            r.base_url_view() == self.base_url_view(),
    {
        let mut r = self;
        let current = r.token.clone();
        r.token = select_token(current, values);
        r
    }

    /// The HTTP backend.
    pub fn client(&self) -> (c: &C)
        ensures
            *c == self.client_view(),
    {
        &self.client
    }

    /// The headers of a request: `Authorization: Bearer <token>` with the
    /// token trimmed, when a token is set.
    pub fn auth_headers(&self) -> (h: HeaderMap)
        ensures
            h@ == match self.token_view() {
                Some(t) => seq![("Authorization"@, "Bearer "@ + trim(t))],
                None => Seq::empty(),
            },
    {
        let mut headers = HeaderMap::new();
        match &self.token {
            Some(token) => {
                let mut value = owned("Bearer ");
                value.append(trim_str(token.as_str()));
                headers.insert("Authorization", value.as_str());
                assert(headers@ =~= seq![("Authorization"@, "Bearer "@ + trim(token@))]);
            },
            None => {},
        }
        headers
    }

    /// The API URL of the releases of `project`: those of `tag` alone (URL
    /// encoded) when one is given, else up to 100 of them.
    pub fn releases_url(&self, project: &str, tag: Option<&str>) -> (u: String)
        ensures
            u@ == match tag {
                Some(t) => self.base_url_view() + "/repos/"@ + project@ + "/releases/tags/"@
                    + url_encode(t@),
                None => self.base_url_view() + "/repos/"@ + project@ + "/releases?per_page=100"@,
            },
    {
        let mut url = owned(self.base_url.as_str());
        url.append("/repos/");
        url.append(project);
        match tag {
            Some(t) => {
                let enc = encode_component(t);
                url.append("/releases/tags/");
                url.append(enc.as_str());
            },
            None => {
                url.append("/releases?per_page=100");
            },
        }
        url
    }
}

} // verus!
