//! Checks of the installed-set collector against real configuration
//! texts and manifest data. The configuration parser runs here, as it
//! does in the shell, and the collector takes its per-file results.

use nix_data::installed::{collect_config_pkgs, env_versions, profile_entries, ProfileElem};
use nix_data::records::ShapeEntry;

fn parse(content: &str) -> Option<Vec<String>> {
    nix_editor::read::getarrvals(content, "environment.systemPackages").ok()
}

#[test]
fn config_files_yield_stripped_union() {
    let file_a = r#"
{ config, pkgs, ... }:
{
  environment.systemPackages = with pkgs; [
    pkgs.hello
    firefox
  ];
}
"#;
    let file_b = r#"
{ config, pkgs, ... }:
{
  environment.systemPackages = [
    pkgs.hello
    pkgs.git
  ];
}
"#;
    let pkgs = collect_config_pkgs(&vec![parse(file_a), parse(file_b)]);
    let mut sorted = pkgs.clone();
    sorted.sort();
    assert_eq!(sorted, vec!["firefox".to_string(), "git".to_string(), "hello".to_string()]);
}

#[test]
fn files_without_an_array_contribute_nothing() {
    let pkgs = collect_config_pkgs(&vec![parse("{ not nix at all"), parse("{ }"), None]);
    assert!(pkgs.is_empty());
    let pkgs = collect_config_pkgs(&vec![
        None,
        Some(vec!["pkgs.hello".to_string(), "hello".to_string()]),
    ]);
    assert_eq!(pkgs, vec!["hello".to_string()]);
}

fn elem(attr: Option<&str>, url: Option<&str>, paths: &[&str]) -> ProfileElem {
    ProfileElem {
        attrpath: attr.map(|s| s.to_string()),
        originalurl: url.map(|s| s.to_string()),
        storepaths: paths.iter().map(|s| s.to_string()).collect(),
    }
}

#[test]
fn profile_manifest_normalization() {
    let store_path = "/nix/store/aaaaaaaaaaaaaaaaaaaaaaaaaaaaaaaa-firefox-128.0";
    assert_eq!(store_path[44..].to_string(), "firefox-128.0");
    let elems = vec![
        elem(
            Some("legacyPackages.x86_64-linux.firefox"),
            Some("flake:nixpkgs"),
            &[store_path],
        ),
        elem(
            Some("packages.x86_64-linux.default"),
            Some("github:owner/tool"),
            &["/nix/store/bbbbbbbbbbbbbbbbbbbbbbbbbbbbbbbb-tool-0.3"],
        ),
        elem(None, Some("flake:nixpkgs"), &[store_path]),
        elem(Some("legacyPackages.x86_64-linux.git"), Some("flake:nixpkgs"), &["short"]),
    ];
    let entries = profile_entries(&elems);
    assert_eq!(entries.len(), 2);
    assert_eq!(entries[0].0, "firefox");
    assert_eq!(entries[0].1.name, "firefox-128.0");
    assert_eq!(entries[0].1.originalurl, "flake:nixpkgs");
    assert_eq!(entries[1].0, "github:owner/tool#packages.x86_64-linux.default");
    assert_eq!(entries[1].1.name, "tool-0.3");
}

#[test]
fn env_listing_maps_names_to_versions() {
    let entries = vec![
        ShapeEntry { pname: "hello".to_string(), version: "1.0".to_string() },
        ShapeEntry { pname: "git".to_string(), version: "2.44".to_string() },
    ];
    let out = env_versions(&entries);
    assert_eq!(
        out,
        vec![
            ("hello".to_string(), "1.0".to_string()),
            ("git".to_string(), "2.44".to_string()),
        ]
    );
}
