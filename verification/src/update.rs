//! Update checks against a backend's or the application's own release
//! feed.  The network call lives outside; this module owns the lenient
//! tag comparison and the decision of whether a release is an update.

use vstd::prelude::*;

use crate::text::{
    find_char_at, lemma_split_char_first, lemma_split_char_len,
    lemma_split_char_none, parse_u32, parse_u32_spec, split_char_spec, str_eq,
    strip_one, strip_one_spec,
};

verus! {

/// Release tags read as up to three dot-separated numbers; missing
/// trailing components default to zero.
pub open spec fn lenient_triple_spec(s: Seq<char>) -> Option<(u32, u32, u32)> {
    let parts = split_char_spec(s, '.');
    if parts.len() >= 3 {
        match (parse_u32_spec(parts[0]), parse_u32_spec(parts[1]), parse_u32_spec(
            parts[2],
        )) {
            (Some(a), Some(b), Some(c)) => Some((a, b, c)),
            _ => None,
        }
    } else if parts.len() == 2 {
        match (parse_u32_spec(parts[0]), parse_u32_spec(parts[1])) {
            (Some(a), Some(b)) => Some((a, b, 0)),
            _ => None,
        }
    } else {
        match parse_u32_spec(parts[0]) {
            Some(a) => Some((a, 0, 0)),
            _ => None,
        }
    }
}

pub open spec fn triple_gt(a: (u32, u32, u32), b: (u32, u32, u32)) -> bool {
    ||| a.0 > b.0
    ||| (a.0 == b.0 && a.1 > b.1)
    ||| (a.0 == b.0 && a.1 == b.1 && a.2 > b.2)
}

/// When both tags read numerically, compare the triples; otherwise any
/// plain string inequality counts as newer.
pub open spec fn is_newer_spec(latest: Seq<char>, current: Seq<char>) -> bool {
    match (lenient_triple_spec(latest), lenient_triple_spec(current)) {
        (Some(l), Some(c)) => triple_gt(l, c),
        _ => latest != current,
    }
}

/// Reads a tag as a numeric triple, as `lenient_triple_spec` says.
pub fn parse_lenient_triple(s: &str) -> (r: Option<(u32, u32, u32)>)
    ensures
        r == lenient_triple_spec(s@),
{
    let n = s.unicode_len();
    let ghost parts = split_char_spec(s@, '.');
    proof {
        lemma_split_char_len(s@, '.');
    }
    let dot1 = match find_char_at(s, 0, '.') {
        Some(i) => i,
        None => {
            proof {
                lemma_split_char_none(s@, '.');
            }
            let r = match parse_u32(s) {
                Some(a) => Some((a, 0u32, 0u32)),
                None => None,
            };
            return r;
        },
    };
    proof {
        lemma_split_char_first(s@, '.', dot1 as int);
        assert(s@.take(dot1 as int) =~= s@.subrange(0, dot1 as int));
    }
    let c0 = s.substring_char(0, dot1);
    let ghost rest1 = s@.skip(dot1 + 1);
    let dot2 = match find_char_at(s, dot1 + 1, '.') {
        Some(i) => i,
        None => {
            proof {
                assert(forall|j: int|
                    0 <= j < rest1.len() ==> rest1[j] == s@[dot1 + 1 + j]);
                lemma_split_char_none(rest1, '.');
                assert(rest1 =~= s@.subrange(dot1 + 1, n as int));
                assert(parts.len() == 2);
            }
            let c1 = s.substring_char(dot1 + 1, n);
            let r = match (parse_u32(c0), parse_u32(c1)) {
                (Some(a), Some(b)) => Some((a, b, 0u32)),
                _ => None,
            };
            return r;
        },
    };
    proof {
        assert(forall|j: int| 0 <= j < dot2 - dot1 - 1 ==> rest1[j] == s@[dot1 + 1
            + j]);
        assert(rest1[dot2 - dot1 - 1] == s@[dot2 as int]);
        lemma_split_char_first(rest1, '.', dot2 - dot1 - 1);
        assert(rest1.take(dot2 - dot1 - 1) =~= s@.subrange(dot1 + 1, dot2 as int));
        assert(rest1.skip(dot2 - dot1) =~= s@.skip(dot2 + 1));
    }
    let c1 = s.substring_char(dot1 + 1, dot2);
    let ghost rest2 = s@.skip(dot2 + 1);
    let end3 = match find_char_at(s, dot2 + 1, '.') {
        Some(i) => {
            proof {
                assert(forall|j: int|
                    0 <= j < i - dot2 - 1 ==> rest2[j] == s@[dot2 + 1 + j]);
                assert(rest2[i - dot2 - 1] == s@[i as int]);
                lemma_split_char_first(rest2, '.', i - dot2 - 1);
                assert(rest2.take(i - dot2 - 1) =~= s@.subrange(dot2 + 1, i as int));
                lemma_split_char_len(rest2.skip(i - dot2), '.');
            }
            i
        },
        None => {
            proof {
                assert(forall|j: int|
                    0 <= j < rest2.len() ==> rest2[j] == s@[dot2 + 1 + j]);
                lemma_split_char_none(rest2, '.');
                assert(rest2 =~= s@.subrange(dot2 + 1, n as int));
            }
            n
        },
    };
    assert(parts.len() >= 3);
    assert(parts[0] == s@.subrange(0, dot1 as int));
    assert(parts[1] == s@.subrange(dot1 + 1, dot2 as int));
    assert(parts[2] == s@.subrange(dot2 + 1, end3 as int));
    let c2 = s.substring_char(dot2 + 1, end3);
    match (parse_u32(c0), parse_u32(c1), parse_u32(c2)) {
        (Some(a), Some(b), Some(c)) => Some((a, b, c)),
        _ => None,
    }
}

/// Is `latest` an update over `current`?  Exactly `is_newer_spec`.
pub fn is_newer_version(latest: &str, current: &str) -> (r: bool)
    ensures
        r == is_newer_spec(latest@, current@),
{
    let lt = parse_lenient_triple(latest);
    let ct = parse_lenient_triple(current);
    match (lt, ct) {
        (Some(l), Some(c)) => {
            if l.0 != c.0 {
                l.0 > c.0
            } else if l.1 != c.1 {
                l.1 > c.1
            } else {
                l.2 > c.2
            }
        },
        _ => !str_eq(latest, current),
    }
}

/// An update of the application itself, offered to the user.
#[derive(Debug, Clone)]
pub struct AppUpdate {
    pub current_version: String,
    pub latest_version: String,
    pub release_url: String,
    pub release_notes: Option<String>,
    pub download_url: Option<String>,
    pub download_size: Option<u64>,
}

pub ghost struct AppUpdateView {
    pub current_version: Seq<char>,
    pub latest_version: Seq<char>,
    pub release_url: Seq<char>,
    pub release_notes: Option<Seq<char>>,
    pub download_url: Option<Seq<char>>,
    pub download_size: Option<u64>,
}

impl View for AppUpdate {
    type V = AppUpdateView;

    open spec fn view(&self) -> AppUpdateView {
        AppUpdateView {
            current_version: self.current_version@,
            latest_version: self.latest_version@,
            release_url: self.release_url@,
            release_notes: self.release_notes.deep_view(),
            download_url: self.download_url.deep_view(),
            download_size: self.download_size,
        }
    }
}

/// An update of the wrapped backend tool.
#[derive(Debug, Clone)]
pub struct BackendUpdate {
    pub current_version: String,
    pub latest_version: String,
    pub release_url: String,
}

pub ghost struct BackendUpdateView {
    pub current_version: Seq<char>,
    pub latest_version: Seq<char>,
    pub release_url: Seq<char>,
}

impl View for BackendUpdate {
    type V = BackendUpdateView;

    open spec fn view(&self) -> BackendUpdateView {
        BackendUpdateView {
            current_version: self.current_version@,
            latest_version: self.latest_version@,
            release_url: self.release_url@,
        }
    }
}

/// One downloadable file of a release.
#[derive(Debug, Clone)]
pub struct GitHubAsset {
    pub name: String,
    pub browser_download_url: String,
    pub size: u64,
}

pub ghost struct GitHubAssetView {
    pub name: Seq<char>,
    pub browser_download_url: Seq<char>,
    pub size: u64,
}

impl View for GitHubAsset {
    type V = GitHubAssetView;

    open spec fn view(&self) -> GitHubAssetView {
        GitHubAssetView {
            name: self.name@,
            browser_download_url: self.browser_download_url@,
            size: self.size,
        }
    }
}

impl DeepView for GitHubAsset {
    type V = GitHubAssetView;

    open spec fn deep_view(&self) -> GitHubAssetView {
        self.view()
    }
}

/// The decoded latest-release document of a project.
#[derive(Debug, Clone)]
pub struct GitHubRelease {
    pub tag_name: String,
    pub html_url: String,
    pub body: Option<String>,
    pub assets: Vec<GitHubAsset>,
}

pub ghost struct GitHubReleaseView {
    pub tag_name: Seq<char>,
    pub html_url: Seq<char>,
    pub body: Option<Seq<char>>,
    pub assets: Seq<GitHubAssetView>,
}

impl View for GitHubRelease {
    type V = GitHubReleaseView;

    open spec fn view(&self) -> GitHubReleaseView {
        GitHubReleaseView {
            tag_name: self.tag_name@,
            html_url: self.html_url@,
            body: self.body.deep_view(),
            assets: self.assets.deep_view(),
        }
    }
}

/// First asset carrying exactly this file name.
pub open spec fn find_asset_spec(assets: Seq<GitHubAssetView>, name: Seq<char>) -> Option<
    GitHubAssetView,
>
    decreases assets.len(),
{
    if assets.len() == 0 {
        None
    } else if assets[0].name == name {
        Some(assets[0])
    } else {
        find_asset_spec(assets.drop_first(), name)
    }
}

proof fn lemma_find_asset_at(assets: Seq<GitHubAssetView>, name: Seq<char>, i: int)
    requires
        0 <= i < assets.len(),
        assets[i].name == name,
        forall|j: int| 0 <= j < i ==> (#[trigger] assets[j]).name != name,
    ensures
        find_asset_spec(assets, name) == Some(assets[i]),
    decreases i,
{
    if i > 0 {
        lemma_find_asset_at(assets.drop_first(), name, i - 1);
    }
}

proof fn lemma_find_asset_none(assets: Seq<GitHubAssetView>, name: Seq<char>)
    requires
        forall|j: int| 0 <= j < assets.len() ==> (#[trigger] assets[j]).name != name,
    ensures
        find_asset_spec(assets, name) is None,
    decreases assets.len(),
{
    if assets.len() > 0 {
        lemma_find_asset_none(assets.drop_first(), name)
    }
}

fn find_asset<'a>(assets: &'a Vec<GitHubAsset>, name: &str) -> (r: Option<
    &'a GitHubAsset,
>)
    ensures
        match r {
            Some(a) => find_asset_spec(assets.deep_view(), name@) == Some(a@),
            None => find_asset_spec(assets.deep_view(), name@) is None,
        },
{
    let n = assets.len();
    let mut i: usize = 0;
    while i < n
        invariant
            0 <= i <= n,
            n == assets@.len(),
            forall|j: int|
                0 <= j < i ==> (#[trigger] assets.deep_view()[j]).name != name@,
        decreases n - i,
    {
        if str_eq(assets[i].name.as_str(), name) {
            proof {
                lemma_find_asset_at(assets.deep_view(), name@, i as int);
            }
            return Some(&assets[i]);
        }
        i = i + 1;
    }
    proof {
        lemma_find_asset_none(assets.deep_view(), name@);
    }
    None
}

/// The release file name this build would download, by target platform
/// and architecture; platforms without a packaged build get none.
pub open spec fn asset_name_spec(
    version: Seq<char>,
    os: Seq<char>,
    arch: Seq<char>,
) -> Option<Seq<char>> {
    if os == "macos"@ && arch == "aarch64"@ {
        Some("versi-"@ + version + "-macos-arm64.zip"@)
    } else if os == "macos"@ && arch == "x86_64"@ {
        Some("versi-"@ + version + "-macos-x64.zip"@)
    } else if os == "linux"@ && arch == "x86_64"@ {
        Some("versi-"@ + version + "-linux-x64.zip"@)
    } else if os == "linux"@ && arch == "aarch64"@ {
        Some("versi-"@ + version + "-linux-arm64.zip"@)
    } else if os == "windows"@ && arch == "x86_64"@ {
        Some("versi-"@ + version + "-windows-x64.msi"@)
    } else {
        None
    }
}

pub fn asset_name(version: &str, os: &str, arch: &str) -> (r: Option<String>)
    ensures
        match r {
            Some(s) => asset_name_spec(version@, os@, arch@) == Some(s@),
            None => asset_name_spec(version@, os@, arch@) is None,
        },
{
    let suffix = if str_eq(os, "macos") && str_eq(arch, "aarch64") {
        "-macos-arm64.zip"
    } else if str_eq(os, "macos") && str_eq(arch, "x86_64") {
        "-macos-x64.zip"
    } else if str_eq(os, "linux") && str_eq(arch, "x86_64") {
        "-linux-x64.zip"
    } else if str_eq(os, "linux") && str_eq(arch, "aarch64") {
        "-linux-arm64.zip"
    } else if str_eq(os, "windows") && str_eq(arch, "x86_64") {
        "-windows-x64.msi"
    } else {
        return None;
    };
    let mut s = String::from_str("versi-");
    s.append(version);
    s.append(suffix);
    Some(s)
}

/// What an application release means for this install: `Some` exactly
/// when the tag, read leniently with its `v` stripped, is newer than the
/// running version; the download is the asset named for this platform.
pub open spec fn evaluate_app_update_spec(
    release: GitHubReleaseView,
    current_version: Seq<char>,
    os: Seq<char>,
    arch: Seq<char>,
) -> Option<AppUpdateView> {
    let latest = strip_one_spec(release.tag_name, 'v');
    let current = strip_one_spec(current_version, 'v');
    if is_newer_spec(latest, current) {
        let found = match asset_name_spec(latest, os, arch) {
            Some(name) => find_asset_spec(release.assets, name),
            None => None,
        };
        Some(
            AppUpdateView {
                current_version: current,
                latest_version: latest,
                release_url: release.html_url,
                release_notes: release.body,
                download_url: match found {
                    Some(a) => Some(a.browser_download_url),
                    None => None,
                },
                download_size: match found {
                    Some(a) => Some(a.size),
                    None => None,
                },
            },
        )
    } else {
        None
    }
}

/// Decides an application update from a decoded release document.
pub fn evaluate_app_update(
    release: &GitHubRelease,
    current_version: &str,
    os: &str,
    arch: &str,
) -> (r: Option<AppUpdate>)
    ensures
        match r {
            Some(u) => evaluate_app_update_spec(release@, current_version@, os@, arch@)
                == Some(u@),
            None => evaluate_app_update_spec(release@, current_version@, os@, arch@)
                is None,
        },
{
    let latest = strip_one(release.tag_name.as_str(), 'v');
    let current = strip_one(current_version, 'v');
    if !is_newer_version(latest, current) {
        return None;
    }
    let found = match asset_name(latest, os, arch) {
        Some(name) => find_asset(&release.assets, name.as_str()),
        None => None,
    };
    let (download_url, download_size) = match found {
        Some(a) => (Some(a.browser_download_url.clone()), Some(a.size)),
        None => (None, None),
    };
    Some(AppUpdate {
        current_version: current.to_owned(),
        latest_version: latest.to_owned(),
        release_url: release.html_url.clone(),
        release_notes: match &release.body {
            Some(b) => Some(b.clone()),
            None => None,
        },
        download_url,
        download_size,
    })
}

/// What a backend release means: `Some` exactly when the tag, `v`
/// stripped on both sides, is newer than the detected backend version.
pub open spec fn evaluate_backend_update_spec(
    tag_name: Seq<char>,
    html_url: Seq<char>,
    current_version: Seq<char>,
) -> Option<BackendUpdateView> {
    let latest = strip_one_spec(tag_name, 'v');
    let current = strip_one_spec(current_version, 'v');
    if is_newer_spec(latest, current) {
        Some(
            BackendUpdateView {
                current_version: current,
                latest_version: latest,
                release_url: html_url,
            },
        )
    } else {
        None
    }
}

/// Decides a backend update from the release tag and page address.
pub fn evaluate_backend_update(
    tag_name: &str,
    html_url: &str,
    current_version: &str,
) -> (r: Option<BackendUpdate>)
    ensures
        match r {
            Some(u) => evaluate_backend_update_spec(tag_name@, html_url@, current_version@)
                == Some(u@),
            None => evaluate_backend_update_spec(tag_name@, html_url@, current_version@)
                is None,
        },
{
    let latest = strip_one(tag_name, 'v');
    let current = strip_one(current_version, 'v');
    if is_newer_version(latest, current) {
        Some(BackendUpdate {
            current_version: current.to_owned(),
            latest_version: latest.to_owned(),
            release_url: html_url.to_owned(),
        })
    } else {
        None
    }
}

} // verus!
