//! Data model for releases and assets.

use vstd::prelude::*;
use crate::text::{opt_chars, opt_str_chars};

verus! {

/// A release from a git forge.
#[derive(Debug, Clone)]
pub struct Release {
    pub(crate) name: Option<String>,
    pub(crate) tag: String,
    pub(crate) prerelease: bool,
    pub(crate) published_at: String,
    pub(crate) body: Option<String>,
    pub(crate) assets: Vec<Asset>,
}

/// A downloadable asset attached to a release.
#[derive(Debug, Clone)]
pub struct Asset {
    pub(crate) name: String,
    pub(crate) size: Option<u64>,
    pub(crate) url: String,
}

/// The value of a [`Release`].
pub struct ReleaseView {
    pub name: Option<Seq<char>>,
    pub tag: Seq<char>,
    pub prerelease: bool,
    pub published_at: Seq<char>,
    pub body: Option<Seq<char>>,
    pub assets: Seq<AssetView>,
}

/// The value of an [`Asset`].
pub struct AssetView {
    pub name: Seq<char>,
    pub size: Option<u64>,
    pub url: Seq<char>,
}

/// The values of a sequence of assets.
pub open spec fn assets_view(assets: Seq<Asset>) -> Seq<AssetView> {
    assets.map_values(|a: Asset| a@)
}

/// The values of a sequence of releases.
pub open spec fn releases_view(releases: Seq<Release>) -> Seq<ReleaseView> {
    releases.map_values(|r: Release| r@)
}

impl View for Asset {
    type V = AssetView;

    closed spec fn view(&self) -> AssetView {
        AssetView { name: self.name@, size: self.size, url: self.url@ }
    }
}

impl View for Release {
    type V = ReleaseView;

    closed spec fn view(&self) -> ReleaseView {
        ReleaseView {
            name: opt_chars(self.name),
            tag: self.tag@,
            prerelease: self.prerelease,
            published_at: self.published_at@,
            body: opt_chars(self.body),
            assets: assets_view(self.assets@),
        }
    }
}

/// The borrowed contents of an optional string.
fn opt_as_str(o: &Option<String>) -> (r: Option<&str>)
    ensures
        opt_str_chars(r) == opt_chars(*o),
{
    match o {
        Some(s) => Some(s.as_str()),
        None => None,
    }
}

impl Release {
    /// A release made of the given parts.
    pub fn from_parts(
        name: Option<String>,
        tag: String,
        prerelease: bool,
        published_at: String,
        body: Option<String>,
        assets: Vec<Asset>,
    ) -> (r: Self)
        ensures
            r@ == (ReleaseView {
                name: opt_chars(name),
                tag: tag@,
                prerelease,
                published_at: published_at@,
                body: opt_chars(body),
                assets: assets_view(assets@),
            }),
    {
        Release { name, tag, prerelease, published_at, body, assets }
    }

    /// The release name, if set.
    pub fn name(&self) -> (r: Option<&str>)
        ensures
            opt_str_chars(r) == self@.name,
    {
        opt_as_str(&self.name)
    }

    /// The git tag this release points to.
    pub fn tag(&self) -> (r: &str)
        ensures
            r@ == self@.tag,
    {
        self.tag.as_str()
    }

    /// Whether this is a prerelease.
    pub fn is_prerelease(&self) -> (r: bool)
        ensures
            r == self@.prerelease,
    {
        self.prerelease
    }

    /// The ISO 8601 timestamp when the release was published.
    pub fn published_at(&self) -> (r: &str)
        ensures
            r@ == self@.published_at,
    {
        self.published_at.as_str()
    }

    /// The release body / description, if set.
    pub fn body(&self) -> (r: Option<&str>)
        ensures
            opt_str_chars(r) == self@.body,
    {
        opt_as_str(&self.body)
    }

    /// The assets attached to this release.
    pub fn assets(&self) -> (r: &[Asset])
        ensures
            assets_view(r@) == self@.assets,
    {
        self.assets.as_slice()
    }
}

impl Asset {
    /// An asset made of the given parts.
    pub fn from_parts(name: String, size: Option<u64>, url: String) -> (a: Self)
        ensures
            a@ == (AssetView { name: name@, size, url: url@ }),
    {
        Asset { name, size, url }
    }

    /// The asset filename.
    pub fn name(&self) -> (r: &str)
        ensures
            r@ == self@.name,
    {
        self.name.as_str()
    }

    /// The asset size in bytes, if reported by the forge.
    pub fn size(&self) -> (r: Option<u64>)
        ensures
            r == self@.size,
    {
        self.size
    }

    /// The download URL for this asset.
    pub fn url(&self) -> (r: &str)
        ensures
            r@ == self@.url,
    {
        self.url.as_str()
    }
}

} // verus!
