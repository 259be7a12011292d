//! The tools that can be installed, how each picks its asset among those of
//! a release, and the versions that a listing of releases resolves to.

use crate::launcher::Launcher;
use crate::release::{
    assets_view, list_releases_url, listing_url, releases_view, Asset, AssetView, Fetched, Release,
    ReleaseView,
};
use crate::text::{contains, ends_with, has_substring, has_suffix, lowercase, lowercase_of};
use vstd::prelude::*;
use vstd::string::*;

verus! {

/// How a tool recognises its asset by the asset's file name.
#[derive(Debug, Clone)]
pub enum AssetRule {
    /// The file name ends with the given text.
    Suffix(String),
    /// The file name holds the token, whatever the case of its letters,
    /// and ends with the suffix.
    TokenAndSuffix { token: String, suffix: String },
}

/// The mathematical value of an [`AssetRule`].
pub enum AssetRuleView {
    Suffix(Seq<char>),
    TokenAndSuffix { token: Seq<char>, suffix: Seq<char> },
}

impl View for AssetRule {
    type V = AssetRuleView;

    open spec fn view(&self) -> AssetRuleView {
        match self {
            AssetRule::Suffix(suffix) => AssetRuleView::Suffix(suffix@),
            AssetRule::TokenAndSuffix { token, suffix } => AssetRuleView::TokenAndSuffix {
                token: token@,
                suffix: suffix@,
            },
        }
    }
}

impl AssetRuleView {
    /// Whether the rule takes a file name, given the name's lowercase form.
    pub open spec fn accepts(self, name: Seq<char>, lowered: Seq<char>) -> bool {
        match self {
            AssetRuleView::Suffix(suffix) => ends_with(name, suffix),
            AssetRuleView::TokenAndSuffix { token, suffix } => contains(lowered, token)
                && ends_with(name, suffix),
        }
    }

    /// Whether the rule takes a file name.
    pub open spec fn matches(self, name: Seq<char>) -> bool {
        self.accepts(name, lowercase(name))
    }

    /// Whether `at` is what the rule selects among `assets`: the position
    /// of an asset that it takes, with none before it that it takes; or
    /// nothing, where it takes none.
    pub open spec fn selects(self, assets: Seq<AssetView>, at: Option<int>) -> bool {
        match at {
            Some(i) => 0 <= i < assets.len() && self.matches(assets[i].file_name) && forall|j: int|
                0 <= j < i ==> !self.matches((#[trigger] assets[j]).file_name),
            None => forall|j: int|
                0 <= j < assets.len() ==> !self.matches((#[trigger] assets[j]).file_name),
        }
    }

    /// The position of the first asset at or after `from` that the rule
    /// takes.
    pub open spec fn first_match_from(self, assets: Seq<AssetView>, from: int) -> Option<int>
        decreases assets.len() - from,
    {
        if from < 0 || from >= assets.len() {
            None
        } else if self.matches(assets[from].file_name) {
            Some(from)
        } else {
            self.first_match_from(assets, from + 1)
        }
    }

    /// The asset that the rule selects: the first one it takes.
    pub open spec fn select(self, assets: Seq<AssetView>) -> Option<AssetView> {
        match self.first_match_from(assets, 0) {
            Some(i) => Some(assets[i]),
            None => None,
        }
    }

    /// The versions that a listing resolves to: one for each release with
    /// a selected asset, in the listing's order.
    pub open spec fn resolve(self, releases: Seq<ReleaseView>) -> Seq<ToolVersionView>
        decreases releases.len(),
    {
        if releases.len() == 0 {
            Seq::empty()
        } else {
            let earlier = self.resolve(releases.drop_last());
            match self.select(releases.last().assets) {
                Some(asset) => earlier.push(
                    ToolVersionView {
                        version: releases.last().tag,
                        download_url: asset.download_url,
                    },
                ),
                None => earlier,
            }
        }
    }
}

/// The first match from `from` on is a match with no match between `from`
/// and it; without one, nothing from `from` on is a match.
pub proof fn lemma_first_match(rule: AssetRuleView, assets: Seq<AssetView>, from: int)
    requires
        0 <= from,
    ensures
        match rule.first_match_from(assets, from) {
            Some(i) => from <= i < assets.len() && rule.matches(assets[i].file_name) && forall|
                j: int,
            |
                from <= j < i ==> !rule.matches((#[trigger] assets[j]).file_name),
            None => forall|j: int|
                from <= j < assets.len() ==> !rule.matches((#[trigger] assets[j]).file_name),
        },
    decreases assets.len() - from,
{
    if from < assets.len() && !rule.matches(assets[from].file_name) {
        lemma_first_match(rule, assets, from + 1);
    }
}

/// A rule selects one thing among given assets, and it is the first
/// match: whatever meets the description of the selection is the same.
pub proof fn lemma_selection_is_unique(
    rule: AssetRuleView,
    assets: Seq<AssetView>,
    a: Option<int>,
    b: Option<int>,
)
    requires
        rule.selects(assets, a),
        rule.selects(assets, b),
    ensures
        a == b,
        a == rule.first_match_from(assets, 0),
{
    lemma_first_match(rule, assets, 0);
    let first = rule.first_match_from(assets, 0);
    assert(rule.selects(assets, first));
    if let Some(i) = a {
        assert(rule.matches(assets[i].file_name));
    }
    if let Some(k) = b {
        assert(rule.matches(assets[k].file_name));
    }
    if let Some(f) = first {
        assert(rule.matches(assets[f].file_name));
    }
}

impl AssetRule {
    /// Whether the rule takes the file name `name`, whose lowercase form
    /// is `lowered`.
    pub fn accepts(&self, name: &str, lowered: &str) -> (r: bool)
        ensures
            r == self@.accepts(name@, lowered@),
    {
        match self {
            AssetRule::Suffix(suffix) => has_suffix(name, suffix.as_str()),
            AssetRule::TokenAndSuffix { token, suffix } => has_substring(lowered, token.as_str())
                && has_suffix(name, suffix.as_str()),
        }
    }

    /// Whether the rule takes the file name `name`.
    pub fn matches(&self, name: &str) -> (r: bool)
        ensures
            r == self@.matches(name@),
    {
        let lowered = lowercase_of(name);
        self.accepts(name, lowered.as_str())
    }

    /// The position of the asset that the rule selects among `assets`: the
    /// first whose file name it takes.
    pub fn select_asset(&self, assets: &Vec<Asset>) -> (r: Option<usize>)
        ensures
            self@.selects(
                assets_view(assets@),
                match r {
                    Some(i) => Some(i as int),
                    None => None,
                },
            ),
            r matches Some(i) ==> i < assets.len(),
    {
        let ghost views = assets_view(assets@);
        let mut i: usize = 0;
        while i < assets.len()
            invariant
                i <= assets.len(),
                views == assets_view(assets@),
                forall|j: int| 0 <= j < i ==> !self@.matches((#[trigger] views[j]).file_name),
            decreases assets.len() - i,
        {
            if self.matches(assets[i].file_name.as_str()) {
                return Some(i);
            }
            i += 1;
        }
        None
    }
}

/// One installable version of a tool.
#[derive(Debug)]
pub struct ToolVersion {
    pub version: String,
    pub download_url: String,
}

/// The mathematical value of a [`ToolVersion`].
pub struct ToolVersionView {
    pub version: Seq<char>,
    pub download_url: Seq<char>,
}

impl View for ToolVersion {
    type V = ToolVersionView;

    open spec fn view(&self) -> ToolVersionView {
        ToolVersionView { version: self.version@, download_url: self.download_url@ }
    }
}

impl Clone for ToolVersion {
    fn clone(&self) -> (r: Self)
        ensures
            r == *self,
    {
        ToolVersion { version: self.version.clone(), download_url: self.download_url.clone() }
    }
}

/// The values of a sequence of versions, in order.
pub open spec fn versions_view(versions: Seq<ToolVersion>) -> Seq<ToolVersionView> {
    Seq::new(versions.len(), |i: int| versions[i]@)
}

/// A tool together with the versions of it that can be installed.
#[derive(Debug)]
pub struct ToolWithVersions {
    pub name: String,
    pub description: String,
    pub default_launcher: Launcher,
    pub versions: Vec<ToolVersion>,
}

/// The mathematical value of a [`ToolWithVersions`].
pub struct ToolWithVersionsView {
    pub name: Seq<char>,
    pub description: Seq<char>,
    pub default_launcher: Launcher,
    pub versions: Seq<ToolVersionView>,
}

impl View for ToolWithVersions {
    type V = ToolWithVersionsView;

    open spec fn view(&self) -> ToolWithVersionsView {
        ToolWithVersionsView {
            name: self.name@,
            description: self.description@,
            default_launcher: self.default_launcher,
            versions: versions_view(self.versions@),
        }
    }
}

impl Clone for ToolWithVersions {
    fn clone(&self) -> (r: Self)
        ensures
            r@ == self@,
    {
        let mut versions: Vec<ToolVersion> = Vec::new();
        let mut i: usize = 0;
        while i < self.versions.len()
            invariant
                i <= self.versions.len(),
                versions@ == self.versions@.take(i as int),
            decreases self.versions.len() - i,
        {
            versions.push(self.versions[i].clone());
            assert(versions@ =~= self.versions@.take(i + 1));
            i += 1;
        }
        assert(versions@ =~= self.versions@);
        ToolWithVersions {
            name: self.name.clone(),
            description: self.description.clone(),
            default_launcher: self.default_launcher,
            versions,
        }
    }
}

/// The values of a sequence of tools with their versions, in order.
pub open spec fn tool_list_view(tools: Seq<ToolWithVersions>) -> Seq<ToolWithVersionsView> {
    Seq::new(tools.len(), |i: int| tools[i]@)
}

/// A tool of the catalog: where its releases are listed, how it picks its
/// asset, and the launcher it is installed for unless the user says
/// otherwise.
#[derive(Debug, Clone)]
pub struct Tool {
    pub name: String,
    pub description: String,
    pub default_launcher: Launcher,
    pub endpoint: String,
    pub rule: AssetRule,
}

/// The mathematical value of a [`Tool`].
pub struct ToolView {
    pub name: Seq<char>,
    pub description: Seq<char>,
    pub default_launcher: Launcher,
    pub endpoint: Seq<char>,
    pub rule: AssetRuleView,
}

impl View for Tool {
    type V = ToolView;

    open spec fn view(&self) -> ToolView {
        ToolView {
            name: self.name@,
            description: self.description@,
            default_launcher: self.default_launcher,
            endpoint: self.endpoint@,
            rule: self.rule@,
        }
    }
}

/// The values of a sequence of tools, in order.
pub open spec fn tools_view(tools: Seq<Tool>) -> Seq<ToolView> {
    Seq::new(tools.len(), |i: int| tools[i]@)
}

impl ToolView {
    /// The tool with the versions that a listing of its releases resolves
    /// to.
    pub open spec fn with_versions(self, releases: Seq<ReleaseView>) -> ToolWithVersionsView {
        ToolWithVersionsView {
            name: self.name,
            description: self.description,
            default_launcher: self.default_launcher,
            versions: self.rule.resolve(releases),
        }
    }
}

/// The registered tools, in the order in which they are shown.
pub open spec fn catalog_view() -> Seq<ToolView> {
    seq![
        ToolView {
            name: "GE-Proton"@,
            description: "Proton compatibility tool with additional fixes"@,
            default_launcher: Launcher::Steam,
            endpoint: "https://api.github.com/repos/GloriousEggroll/proton-ge-custom/releases"@,
            rule: AssetRuleView::Suffix(".tar.gz"@),
        },
        ToolView {
            name: "Wine-GE"@,
            description: "Wine with additional game fixes"@,
            default_launcher: Launcher::Lutris,
            endpoint: "https://api.github.com/repos/GloriousEggroll/wine-ge-custom/releases"@,
            rule: AssetRuleView::Suffix(".tar.xz"@),
        },
        ToolView {
            name: "Spritz-Wine"@,
            description: "Wine builds optimized for gaming performance"@,
            default_launcher: Launcher::Lutris,
            endpoint: "https://api.github.com/repos/NelloKudo/Wine-Builds/releases"@,
            rule: AssetRuleView::TokenAndSuffix { token: "spritz"@, suffix: ".tar.xz"@ },
        },
        ToolView {
            name: "dwproton"@,
            description: "Dawn Wine Proton - Proton fork with improvements"@,
            default_launcher: Launcher::Steam,
            endpoint: "https://dawn.wine/api/v1/repos/dawn-winery/dwproton/releases"@,
            rule: AssetRuleView::Suffix(".tar.xz"@),
        },
    ]
}

/// The registered tools.
pub fn catalog() -> (tools: Vec<Tool>)
    ensures
        tools_view(tools@) == catalog_view(),
{
    let mut tools: Vec<Tool> = Vec::new();
    tools.push(
        Tool {
            name: String::from_str("GE-Proton"),
            description: String::from_str("Proton compatibility tool with additional fixes"),
            default_launcher: Launcher::Steam,
            endpoint: String::from_str(
                "https://api.github.com/repos/GloriousEggroll/proton-ge-custom/releases",
            ),
            rule: AssetRule::Suffix(String::from_str(".tar.gz")),
        },
    );
    tools.push(
        Tool {
            name: String::from_str("Wine-GE"),
            description: String::from_str("Wine with additional game fixes"),
            default_launcher: Launcher::Lutris,
            endpoint: String::from_str(
                "https://api.github.com/repos/GloriousEggroll/wine-ge-custom/releases",
            ),
            rule: AssetRule::Suffix(String::from_str(".tar.xz")),
        },
    );
    tools.push(
        Tool {
            name: String::from_str("Spritz-Wine"),
            description: String::from_str("Wine builds optimized for gaming performance"),
            default_launcher: Launcher::Lutris,
            endpoint: String::from_str(
                "https://api.github.com/repos/NelloKudo/Wine-Builds/releases",
            ),
            rule: AssetRule::TokenAndSuffix {
                token: String::from_str("spritz"),
                suffix: String::from_str(".tar.xz"),
            },
        },
    );
    tools.push(
        Tool {
            name: String::from_str("dwproton"),
            description: String::from_str("Dawn Wine Proton - Proton fork with improvements"),
            default_launcher: Launcher::Steam,
            endpoint: String::from_str(
                "https://dawn.wine/api/v1/repos/dawn-winery/dwproton/releases",
            ),
            rule: AssetRule::Suffix(String::from_str(".tar.xz")),
        },
    );
    assert(tools_view(tools@) =~= catalog_view());
    tools
}

impl Tool {
    /// The versions of the tool among `releases`: for each release the
    /// asset that the tool's rule selects, releases without one left out.
    pub fn resolve_versions(&self, releases: &Vec<Release>) -> (r: ToolWithVersions)
        ensures
            r@ == self@.with_versions(releases_view(releases@)),
    {
        let ghost all = releases_view(releases@);
        let mut versions: Vec<ToolVersion> = Vec::new();
        let mut i: usize = 0;
        while i < releases.len()
            invariant
                i <= releases.len(),
                all == releases_view(releases@),
                versions_view(versions@) == self@.rule.resolve(all.take(i as int)),
            decreases releases.len() - i,
        {
            let release = &releases[i];
            proof {
                assert(all.take(i + 1).drop_last() =~= all.take(i as int));
                assert(all.take(i + 1).last() == release@);
            }
            let selected = self.rule.select_asset(&release.assets);
            proof {
                let at = match selected {
                    Some(i) => Some(i as int),
                    None => None,
                };
                lemma_selection_is_unique(self@.rule, release@.assets, at, at);
            }
            match selected {
                Some(at) => {
                    let ghost before = versions@;
                    versions.push(
                        ToolVersion {
                            version: release.tag.clone(),
                            download_url: release.assets[at].download_url.clone(),
                        },
                    );
                    assert(versions_view(versions@) =~= versions_view(before).push(
                        versions@.last()@,
                    ));
                },
                None => {},
            }
            i += 1;
        }
        assert(all.take(releases.len() as int) =~= all);
        ToolWithVersions {
            name: self.name.clone(),
            description: self.description.clone(),
            default_launcher: self.default_launcher,
            versions,
        }
    }
}

/// Whether a fetched listing holds releases to resolve versions from.
pub open spec fn is_available(fetched: Fetched) -> bool {
    fetched matches Fetched::Releases(list) && list.len() > 0
}

/// The refreshed catalog: each tool whose listing, at the tool's position
/// among `fetched`, holds releases, with the versions resolved from them.
/// The other tools are left out.
pub open spec fn refreshed(tools: Seq<ToolView>, fetched: Seq<Fetched>) -> Seq<ToolWithVersionsView>
    decreases tools.len(),
{
    if tools.len() == 0 {
        Seq::empty()
    } else {
        let earlier = refreshed(tools.drop_last(), fetched);
        let i = tools.len() - 1;
        if i < fetched.len() && is_available(fetched[i]) {
            earlier.push(tools.last().with_versions(releases_view(fetched[i]->Releases_0@)))
        } else {
            earlier
        }
    }
}

/// The addresses of the listings of the `count` most recent releases, one
/// for each tool.
pub open spec fn listing_urls(tools: Seq<ToolView>, count: nat) -> Seq<Seq<char>> {
    Seq::new(tools.len(), |i: int| listing_url(tools[i].endpoint, count))
}

/// The addresses to fetch for a refresh: for each tool of the catalog, in
/// order, that of the listing of its `count` most recent releases.
pub fn listing_requests(count: u64) -> (urls: Vec<String>)
    ensures
        urls.len() == catalog_view().len(),
        forall|i: int|
            0 <= i < urls.len() ==> (#[trigger] urls[i])@ == listing_urls(
                catalog_view(),
                count as nat,
            )[i],
{
    let tools = catalog();
    let mut urls: Vec<String> = Vec::new();
    let mut i: usize = 0;
    while i < tools.len()
        invariant
            i <= tools.len(),
            urls.len() == i,
            tools_view(tools@) == catalog_view(),
            forall|k: int|
                0 <= k < i ==> (#[trigger] urls[k])@ == listing_url(
                    catalog_view()[k].endpoint,
                    count as nat,
                ),
        decreases tools.len() - i,
    {
        assert(tools_view(tools@)[i as int] == tools[i as int]@);
        urls.push(list_releases_url(tools[i].endpoint.as_str(), count));
        i += 1;
    }
    assert(tools_view(tools@).len() == tools.len());
    urls
}

/// The catalog with the versions resolved from the listings fetched for
/// [`listing_requests`], in the same order. A failure to fetch one tool's
/// listing does not stand in the way of the others: a tool whose listing
/// could not be had, or holds no release, is left out, and the rest are
/// returned.
pub fn refresh_all(fetched: &Vec<Fetched>) -> (r: Vec<ToolWithVersions>)
    ensures
        tool_list_view(r@) == refreshed(catalog_view(), fetched@),
{
    let tools = catalog();
    let ghost all = catalog_view();
    let mut found: Vec<ToolWithVersions> = Vec::new();
    let mut i: usize = 0;
    while i < tools.len()
        invariant
            i <= tools.len(),
            tools_view(tools@) == all,
            tool_list_view(found@) == refreshed(all.take(i as int), fetched@),
        decreases tools.len() - i,
    {
        proof {
            assert(tools_view(tools@).len() == tools.len());
            assert(tools_view(tools@)[i as int] == tools[i as int]@);
            assert(all.take(i + 1).drop_last() =~= all.take(i as int));
            assert(all.take(i + 1).last() == tools[i as int]@);
        }
        if i < fetched.len() {
            match &fetched[i] {
                Fetched::Releases(list) => {
                    if list.len() > 0 {
                        let ghost before = found@;
                        found.push(tools[i].resolve_versions(list));
                        assert(tool_list_view(found@) =~= tool_list_view(before).push(
                            found@.last()@,
                        ));
                    }
                },
                _ => {},
            }
        }
        i += 1;
    }
    assert(tools_view(tools@).len() == tools.len());
    assert(all.take(tools.len() as int) =~= all);
    found
}

} // verus!
