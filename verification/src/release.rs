//! Releases as a release-hosting service lists them, the address of the
//! listing, and what a fetched listing amounts to.

use crate::text::{decimal, push_decimal};
use vstd::prelude::*;
use vstd::string::*;

verus! {

/// A downloadable file attached to a release.
#[derive(Debug, Clone)]
pub struct Asset {
    pub file_name: String,
    pub download_url: String,
}

/// The mathematical value of an [`Asset`].
pub struct AssetView {
    pub file_name: Seq<char>,
    pub download_url: Seq<char>,
}

impl View for Asset {
    type V = AssetView;

    open spec fn view(&self) -> AssetView {
        AssetView { file_name: self.file_name@, download_url: self.download_url@ }
    }
}

/// The values of a sequence of assets, in order.
pub open spec fn assets_view(assets: Seq<Asset>) -> Seq<AssetView> {
    Seq::new(assets.len(), |i: int| assets[i]@)
}

/// A published version of a tool, with its assets in the order listed.
#[derive(Debug, Clone)]
pub struct Release {
    pub tag: String,
    pub display_name: String,
    pub assets: Vec<Asset>,
}

/// The mathematical value of a [`Release`].
pub struct ReleaseView {
    pub tag: Seq<char>,
    pub display_name: Seq<char>,
    pub assets: Seq<AssetView>,
}

impl View for Release {
    type V = ReleaseView;

    open spec fn view(&self) -> ReleaseView {
        ReleaseView {
            tag: self.tag@,
            display_name: self.display_name@,
            assets: assets_view(self.assets@),
        }
    }
}

/// The values of a sequence of releases, in order.
pub open spec fn releases_view(releases: Seq<Release>) -> Seq<ReleaseView> {
    Seq::new(releases.len(), |i: int| releases[i]@)
}

/// Why a release listing could not be had.
#[derive(Debug, Clone, Copy, PartialEq, Eq, Structural)]
pub enum SourceError {
    /// The service could not be reached.
    SourceUnavailable,
    /// The service answered, but not with a release listing.
    SourceMalformed,
    /// The listing holds no release.
    SourceEmpty,
}

/// The outcome of one request for a release listing.
#[derive(Debug, Clone)]
pub enum Fetched {
    /// The request failed in transport.
    Unreachable,
    /// The body did not decode as a release listing.
    Undecodable,
    /// The releases of the body, most recent first.
    Releases(Vec<Release>),
}

/// The address of the listing of the `max_count` most recent releases.
pub open spec fn listing_url(endpoint: Seq<char>, max_count: nat) -> Seq<char> {
    endpoint + "?per_page="@ + decimal(max_count)
}

/// The address of the most recent release alone.
pub open spec fn latest_url(endpoint: Seq<char>) -> Seq<char> {
    endpoint + "/latest"@
}

/// Builds the address to ask for the `max_count` most recent releases of
/// the repository whose release endpoint is `endpoint`.
pub fn list_releases_url(endpoint: &str, max_count: u64) -> (url: String)
    ensures
        url@ == listing_url(endpoint@, max_count as nat),
{
    let mut url = String::from_str(endpoint);
    url.append("?per_page=");
    push_decimal(&mut url, max_count);
    url
}

/// Builds the address to ask for the most recent release of the
/// repository whose release endpoint is `endpoint`.
pub fn latest_release_url(endpoint: &str) -> (url: String)
    ensures
        url@ == latest_url(endpoint@),
{
    let mut url = String::from_str(endpoint);
    url.append("/latest");
    url
}

/// What a fetched listing amounts to: its releases in the order received,
/// or the reason why there are none.
pub fn list_releases(fetched: Fetched) -> (r: Result<Vec<Release>, SourceError>)
    ensures
        fetched is Unreachable ==> r == Err::<Vec<Release>, SourceError>(
            SourceError::SourceUnavailable,
        ),
        fetched is Undecodable ==> r == Err::<Vec<Release>, SourceError>(
            SourceError::SourceMalformed,
        ),
        fetched matches Fetched::Releases(list) ==> r == if list.len() == 0 {
            Err::<Vec<Release>, SourceError>(SourceError::SourceEmpty)
        } else {
            Ok(list)
        },
{
    match fetched {
        Fetched::Unreachable => Err(SourceError::SourceUnavailable),
        Fetched::Undecodable => Err(SourceError::SourceMalformed),
        Fetched::Releases(list) => {
            if list.len() == 0 {
                Err(SourceError::SourceEmpty)
            } else {
                Ok(list)
            }
        },
    }
}

/// The most recent release of a fetched listing, or the reason why there
/// is none.
pub fn latest_release(fetched: Fetched) -> (r: Result<Release, SourceError>)
    ensures
        fetched is Unreachable ==> r == Err::<Release, SourceError>(SourceError::SourceUnavailable),
        fetched is Undecodable ==> r == Err::<Release, SourceError>(SourceError::SourceMalformed),
        fetched matches Fetched::Releases(list) ==> r == if list.len() == 0 {
            Err::<Release, SourceError>(SourceError::SourceEmpty)
        } else {
            Ok(list[0])
        },
{
    match list_releases(fetched) {
        Ok(mut list) => Ok(list.swap_remove(0)),
        Err(e) => Err(e),
    }
}

} // verus!
