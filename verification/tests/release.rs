use protonup::release::{
    latest_release, latest_release_url, list_releases, list_releases_url, Asset, Fetched, Release,
    SourceError,
};

fn release(tag: &str) -> Release {
    Release {
        tag: tag.to_string(),
        display_name: format!("Release {}", tag),
        assets: vec![Asset {
            file_name: format!("{}.tar.gz", tag),
            download_url: format!("https://x/{}.tar.gz", tag),
        }],
    }
}

#[test]
fn listing_url_has_count() {
    assert_eq!(
        list_releases_url("https://api.github.com/repos/o/r/releases", 4),
        "https://api.github.com/repos/o/r/releases?per_page=4"
    );
    assert_eq!(list_releases_url("e", 0), "e?per_page=0");
    assert_eq!(list_releases_url("e", 100), "e?per_page=100");
}

#[test]
fn latest_url_is_below_endpoint() {
    assert_eq!(
        latest_release_url("https://dawn.wine/api/v1/repos/o/r/releases"),
        "https://dawn.wine/api/v1/repos/o/r/releases/latest"
    );
}

#[test]
fn unreachable_source_is_unavailable() {
    assert_eq!(list_releases(Fetched::Unreachable).unwrap_err(), SourceError::SourceUnavailable);
    assert_eq!(latest_release(Fetched::Unreachable).unwrap_err(), SourceError::SourceUnavailable);
}

#[test]
fn undecodable_body_is_malformed() {
    assert_eq!(list_releases(Fetched::Undecodable).unwrap_err(), SourceError::SourceMalformed);
    assert_eq!(latest_release(Fetched::Undecodable).unwrap_err(), SourceError::SourceMalformed);
}

#[test]
fn empty_listing_is_empty() {
    assert_eq!(list_releases(Fetched::Releases(vec![])).unwrap_err(), SourceError::SourceEmpty);
    assert_eq!(latest_release(Fetched::Releases(vec![])).unwrap_err(), SourceError::SourceEmpty);
}

#[test]
fn listing_keeps_order() {
    let got = list_releases(Fetched::Releases(vec![release("v3"), release("v2"), release("v1")]))
        .unwrap();
    let tags: Vec<&str> = got.iter().map(|r| r.tag.as_str()).collect();
    assert_eq!(tags, vec!["v3", "v2", "v1"]);
    assert_eq!(got[0].assets[0].download_url, "https://x/v3.tar.gz");
    assert_eq!(got[0].display_name, "Release v3");
}

#[test]
fn latest_is_first_of_listing() {
    let got = latest_release(Fetched::Releases(vec![release("v3"), release("v2")])).unwrap();
    assert_eq!(got.tag, "v3");
    let got = latest_release(Fetched::Releases(vec![release("only")])).unwrap();
    assert_eq!(got.tag, "only");
}
