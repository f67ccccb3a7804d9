//! Version resolution and build selection.

use eagle::error::Error;
use eagle::select::{
    pick_best_build, pick_best_loader_combo, select_build, BuildDescriptor, DownloadDescriptor,
    DownloadEntry, LoaderCombo,
};
use eagle::version::{
    looks_like_family_key, pick_best_version_for_family, resolve_paper_version, FamilyVersions,
    VersionIndex,
};

#[test]
fn family_key_detection() {
    assert!(looks_like_family_key("1.21"));
    assert!(looks_like_family_key(" 1.21 "));
    assert!(!looks_like_family_key("1.21.11"));
    assert!(!looks_like_family_key("1.21-rc1"));
    assert!(!looks_like_family_key("paper"));
    assert!(!looks_like_family_key(""));
}

#[test]
fn family_key_detection_edges() {
    assert!(looks_like_family_key("0.0"));
    assert!(!looks_like_family_key("."));
    assert!(!looks_like_family_key("1."));
    assert!(!looks_like_family_key(".21"));
    assert!(!looks_like_family_key("1.2.3"));
    assert!(!looks_like_family_key("1x.21"));
    assert!(!looks_like_family_key("   "));
}

#[test]
fn pick_best_version_prefers_non_prerelease() {
    let versions = vec![
        "1.21.11-rc3".to_string(),
        "1.21.11".to_string(),
        "1.21.10".to_string(),
    ];
    assert_eq!(
        pick_best_version_for_family(&versions),
        Some("1.21.11".to_string())
    );
}

#[test]
fn pick_best_version_falls_back_to_first() {
    let versions = vec!["1.21.11-rc3".to_string()];
    assert_eq!(
        pick_best_version_for_family(&versions),
        Some("1.21.11-rc3".to_string())
    );
}

#[test]
fn pick_best_version_empty() {
    let versions: Vec<String> = Vec::new();
    assert_eq!(pick_best_version_for_family(&versions), None);
}

fn build(id: u64, channel: &str) -> BuildDescriptor {
    BuildDescriptor {
        id,
        channel: channel.to_string(),
        downloads: Vec::new(),
    }
}

fn build_with_download(id: u64, channel: &str, kind: &str, url: &str) -> BuildDescriptor {
    BuildDescriptor {
        id,
        channel: channel.to_string(),
        downloads: vec![DownloadEntry {
            kind: kind.to_string(),
            download: DownloadDescriptor {
                name: format!("paper-{id}.jar"),
                sha256: "f00d".to_string(),
                url: url.to_string(),
            },
        }],
    }
}

#[test]
fn pick_best_build_prefers_stable_highest_id() {
    let builds = vec![build(1, "STABLE"), build(10, "BETA"), build(5, "STABLE")];
    assert_eq!(pick_best_build(&builds).map(|b| b.id), Some(5));
}

#[test]
fn pick_best_build_falls_back_without_stable() {
    let builds = vec![build(4, "BETA"), build(9, "BETA"), build(2, "ALPHA")];
    assert_eq!(pick_best_build(&builds).map(|b| b.id), Some(9));
    let none: Vec<BuildDescriptor> = Vec::new();
    assert!(pick_best_build(&none).is_none());
}

#[test]
fn select_build_returns_required_download() {
    let builds = vec![
        build_with_download(2, "STABLE", "server:default", "https://example.invalid/2"),
        build_with_download(3, "BETA", "server:default", "https://example.invalid/3"),
    ];
    let (best, download) = select_build(&builds, "server:default").unwrap();
    assert_eq!(best.id, 2);
    assert_eq!(download.url, "https://example.invalid/2");
}

#[test]
fn select_build_errors() {
    let empty: Vec<BuildDescriptor> = Vec::new();
    assert_eq!(
        select_build(&empty, "server:default").err(),
        Some(Error::NotFound)
    );
    let builds = vec![build(7, "STABLE")];
    assert_eq!(
        select_build(&builds, "server:default").err(),
        Some(Error::MissingAsset)
    );
}

fn index(key: &str, versions: &[&str]) -> VersionIndex {
    VersionIndex {
        families: vec![FamilyVersions {
            family: key.to_string(),
            versions: versions.iter().map(|v| v.to_string()).collect(),
        }],
    }
}

#[test]
fn resolve_exact_version_passes_through() {
    let idx = VersionIndex { families: Vec::new() };
    assert_eq!(
        resolve_paper_version("1.21.4", &idx),
        Ok("1.21.4".to_string())
    );
}

#[test]
fn resolve_unknown_family_not_found() {
    let idx = index("1.20", &["1.20.6"]);
    assert_eq!(resolve_paper_version("1.21", &idx), Err(Error::NotFound));
}

#[test]
fn resolve_empty_family_not_found() {
    let idx = index("1.21", &[]);
    assert_eq!(resolve_paper_version("1.21", &idx), Err(Error::NotFound));
}

#[test]
fn end_to_end_resolution_and_selection() {
    let idx = index("1.21", &["1.21.5-rc1", "1.21.4", "1.21.3"]);
    let concrete = resolve_paper_version("1.21", &idx).unwrap();
    assert_eq!(concrete, "1.21.4");

    let builds = vec![
        build_with_download(2, "STABLE", "server:default", "https://example.invalid/2"),
        build_with_download(3, "BETA", "server:default", "https://example.invalid/3"),
    ];
    let (best, _) = select_build(&builds, "server:default").unwrap();
    assert_eq!(best.id, 2);
}

#[test]
fn loader_combo_prefers_stable_pair() {
    let combos = vec![
        LoaderCombo {
            loader_version: "0.17.3".to_string(),
            loader_stable: Some(false),
            installer_version: "1.1.0".to_string(),
            installer_stable: Some(true),
        },
        LoaderCombo {
            loader_version: "0.16.9".to_string(),
            loader_stable: Some(true),
            installer_version: "1.0.1".to_string(),
            installer_stable: None,
        },
    ];
    let best = pick_best_loader_combo(&combos).unwrap();
    assert_eq!(best.loader_version, "0.16.9");
}

#[test]
fn loader_combo_falls_back_to_first() {
    let combos = vec![
        LoaderCombo {
            loader_version: "0.17.3".to_string(),
            loader_stable: Some(false),
            installer_version: "1.1.0".to_string(),
            installer_stable: Some(true),
        },
        LoaderCombo {
            loader_version: "0.17.2".to_string(),
            loader_stable: Some(true),
            installer_version: "1.1.0".to_string(),
            installer_stable: Some(false),
        },
    ];
    let best = pick_best_loader_combo(&combos).unwrap();
    assert_eq!(best.loader_version, "0.17.3");
    let none: Vec<LoaderCombo> = Vec::new();
    assert!(pick_best_loader_combo(&none).is_none());
}

#[test]
fn pipeline_urls() {
    assert_eq!(
        eagle::select::paper_index_url(),
        "https://fill.papermc.io/v3/projects/paper"
    );
    assert_eq!(
        eagle::select::paper_builds_url("1.21.4"),
        "https://fill.papermc.io/v3/projects/paper/versions/1.21.4/builds"
    );
    assert_eq!(eagle::select::server_default_kind(), "server:default");
    assert_eq!(
        eagle::select::fabric_loader_url("1.21.4"),
        "https://meta.fabricmc.net/v2/versions/loader/1.21.4"
    );
    assert_eq!(
        eagle::select::fabric_server_jar_url("1.21.4", "0.16.9", "1.0.1"),
        "https://meta.fabricmc.net/v2/versions/loader/1.21.4/0.16.9/1.0.1/server/jar"
    );
}
