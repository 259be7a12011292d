use protonup::catalog::{catalog, listing_requests, refresh_all, AssetRule, Tool};
use protonup::launcher::Launcher;
use protonup::release::{Asset, Fetched, Release};

fn asset(name: &str) -> Asset {
    Asset { file_name: name.to_string(), download_url: format!("https://x/{}", name) }
}

fn release(tag: &str, names: &[&str]) -> Release {
    Release {
        tag: tag.to_string(),
        display_name: tag.to_string(),
        assets: names.iter().map(|n| asset(n)).collect(),
    }
}

fn suffix(s: &str) -> AssetRule {
    AssetRule::Suffix(s.to_string())
}

fn tool(rule: AssetRule) -> Tool {
    Tool {
        name: "T".to_string(),
        description: "D".to_string(),
        default_launcher: Launcher::Lutris,
        endpoint: "https://e".to_string(),
        rule,
    }
}

#[test]
fn selects_tar_gz_among_two_assets() {
    let r = release("v1.2", &["pkg.tar.gz", "pkg.tar.xz"]);
    let at = suffix(".tar.gz").select_asset(&r.assets).unwrap();
    assert_eq!(r.assets[at].file_name, "pkg.tar.gz");
    assert_eq!(r.assets[at].download_url, "https://x/pkg.tar.gz");
    let resolved = tool(suffix(".tar.gz")).resolve_versions(&vec![r]);
    assert_eq!(resolved.versions.len(), 1);
    assert_eq!(resolved.versions[0].version, "v1.2");
    assert_eq!(resolved.versions[0].download_url, "https://x/pkg.tar.gz");
}

#[test]
fn first_match_wins() {
    let r = release("v", &["a.sha512sum", "b.tar.xz", "c.tar.xz"]);
    assert_eq!(suffix(".tar.xz").select_asset(&r.assets), Some(1));
    assert_eq!(suffix(".tar.gz").select_asset(&r.assets), None);
    assert_eq!(suffix(".tar.gz").select_asset(&vec![]), None);
}

#[test]
fn selection_is_the_same_on_every_call() {
    let r = release("v", &["x.zip", "one.tar.xz", "two.tar.xz", "three.tar.xz"]);
    let rule = suffix(".tar.xz");
    let first = rule.select_asset(&r.assets);
    for _ in 0..5 {
        assert_eq!(rule.select_asset(&r.assets), first);
    }
    assert_eq!(first, Some(1));
    let t = tool(suffix(".tar.xz"));
    let a = t.resolve_versions(&vec![r.clone()]);
    let b = t.resolve_versions(&vec![r]);
    assert_eq!(a.versions[0].download_url, b.versions[0].download_url);
    assert_eq!(a.versions[0].download_url, "https://x/one.tar.xz");
}

#[test]
fn token_rule_ignores_case_of_the_name() {
    let rule = AssetRule::TokenAndSuffix { token: "spritz".to_string(), suffix: ".tar.xz".to_string() };
    assert!(rule.matches("Spritz-Wine-10.1.tar.xz"));
    assert!(rule.matches("wine-SPRITZ.tar.xz"));
    assert!(rule.matches("spritz.tar.xz"));
    assert!(!rule.matches("Spritz-Wine-10.1.tar.gz"));
    assert!(!rule.matches("wine-tkg.tar.xz"));
    assert!(!rule.matches("Spritz-Wine-10.1.TAR.XZ"));
}

#[test]
fn accepts_takes_the_lowercase_form_as_given() {
    let rule = AssetRule::TokenAndSuffix { token: "spritz".to_string(), suffix: ".tar.xz".to_string() };
    assert!(rule.accepts("Spritz.tar.xz", "spritz.tar.xz"));
    assert!(!rule.accepts("Spritz.tar.xz", "Spritz.tar.xz"));
    assert!(!rule.accepts("spritz.tar.gz", "spritz.tar.gz"));
    assert!(suffix(".tgz").accepts("a.tgz", "whatever"));
    assert!(!suffix(".tgz").accepts("a.tar", "a.tgz"));
}

#[test]
fn suffix_rule_is_case_sensitive() {
    assert!(suffix(".tar.gz").matches("GE-Proton9-7.tar.gz"));
    assert!(!suffix(".tar.gz").matches("GE-Proton9-7.TAR.GZ"));
    assert!(!suffix(".tar.gz").matches("GE-Proton9-7.sha512sum"));
}

#[test]
fn releases_without_match_are_dropped() {
    let releases = vec![
        release("v3", &["v3.tar.gz"]),
        release("v2", &["v2.zip", "v2.sha512sum"]),
        release("v1", &["notes.txt", "v1.tar.gz", "v1-alt.tar.gz"]),
        release("v0", &[]),
    ];
    let got = tool(suffix(".tar.gz")).resolve_versions(&releases);
    assert_eq!(got.name, "T");
    assert_eq!(got.description, "D");
    assert_eq!(got.default_launcher, Launcher::Lutris);
    let pairs: Vec<(&str, &str)> =
        got.versions.iter().map(|v| (v.version.as_str(), v.download_url.as_str())).collect();
    assert_eq!(pairs, vec![("v3", "https://x/v3.tar.gz"), ("v1", "https://x/v1.tar.gz")]);
}

#[test]
fn no_releases_resolve_to_no_versions() {
    let got = tool(suffix(".tar.gz")).resolve_versions(&vec![]);
    assert!(got.versions.is_empty());
}

#[test]
fn catalog_lists_the_four_tools() {
    let tools = catalog();
    assert_eq!(tools.len(), 4);
    let names: Vec<&str> = tools.iter().map(|t| t.name.as_str()).collect();
    assert_eq!(names, vec!["GE-Proton", "Wine-GE", "Spritz-Wine", "dwproton"]);
    assert_eq!(tools[0].default_launcher, Launcher::Steam);
    assert_eq!(tools[1].default_launcher, Launcher::Lutris);
    assert_eq!(tools[2].default_launcher, Launcher::Lutris);
    assert_eq!(tools[3].default_launcher, Launcher::Steam);
    assert_eq!(tools[0].description, "Proton compatibility tool with additional fixes");
    assert_eq!(tools[1].description, "Wine with additional game fixes");
    assert_eq!(tools[2].description, "Wine builds optimized for gaming performance");
    assert_eq!(tools[3].description, "Dawn Wine Proton - Proton fork with improvements");
    assert_eq!(
        tools[0].endpoint,
        "https://api.github.com/repos/GloriousEggroll/proton-ge-custom/releases"
    );
    assert_eq!(
        tools[1].endpoint,
        "https://api.github.com/repos/GloriousEggroll/wine-ge-custom/releases"
    );
    assert_eq!(tools[2].endpoint, "https://api.github.com/repos/NelloKudo/Wine-Builds/releases");
    assert_eq!(tools[3].endpoint, "https://dawn.wine/api/v1/repos/dawn-winery/dwproton/releases");
    assert!(tools[0].rule.matches("GE-Proton9-7.tar.gz"));
    assert!(!tools[0].rule.matches("GE-Proton9-7.tar.xz"));
    assert!(tools[1].rule.matches("wine-lutris-GE-Proton8-26-x86_64.tar.xz"));
    assert!(tools[2].rule.matches("Spritz-Wine-TkG-10.tar.xz"));
    assert!(!tools[2].rule.matches("Wine-TkG-10.tar.xz"));
    assert!(tools[3].rule.matches("dwproton-10.0-1.tar.xz"));
}

#[test]
fn tool_with_versions_clone_keeps_everything() {
    let got = tool(suffix(".tar.gz")).resolve_versions(&vec![release("v3", &["v3.tar.gz"])]);
    let copy = got.clone();
    assert_eq!(copy.name, got.name);
    assert_eq!(copy.description, got.description);
    assert_eq!(copy.default_launcher, got.default_launcher);
    assert_eq!(copy.versions.len(), 1);
    assert_eq!(copy.versions[0].version, "v3");
    assert_eq!(copy.versions[0].download_url, "https://x/v3.tar.gz");
    let v = got.versions[0].clone();
    assert_eq!(v.version, "v3");
}

#[test]
fn refresh_all_goes_on_past_failures() {
    let fetched = vec![
        Fetched::Releases(vec![release("GE-Proton9-7", &["GE-Proton9-7.tar.gz"])]),
        Fetched::Unreachable,
        Fetched::Undecodable,
        Fetched::Releases(vec![release("dw-1", &["dw-1.tar.xz"]), release("dw-0", &["dw-0.tar.gz"])]),
    ];
    let tools = refresh_all(&fetched);
    assert_eq!(tools.len(), 2);
    assert_eq!(tools[0].name, "GE-Proton");
    assert_eq!(tools[0].versions[0].download_url, "https://x/GE-Proton9-7.tar.gz");
    assert_eq!(tools[1].name, "dwproton");
    assert_eq!(tools[1].versions.len(), 1);
    assert_eq!(tools[1].versions[0].version, "dw-1");
}

#[test]
fn listing_requests_follow_the_catalog() {
    let urls = listing_requests(7);
    let tools = catalog();
    assert_eq!(urls.len(), tools.len());
    for (url, tool) in urls.iter().zip(tools.iter()) {
        assert_eq!(*url, format!("{}?per_page=7", tool.endpoint));
    }
}
