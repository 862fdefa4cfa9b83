//! End-to-end checks of the engine's verified core: freshness and refresh
//! planning, source resolution, payload decoding, shape round trips, and
//! reconciliation.

use nix_data::config::{config_source, generations_to_keep, ConfigSource, NixDataConfig};
use nix_data::payload::{assoc_get, brotli_decompress, parse_string_object};
use nix_data::reconcile::{
    alias_reason, availability_reason, profile_version, unavailability_report, versions_of,
    AliasProbe,
};
use nix_data::records::{
    decode_flake, decode_full, decode_legacy, encode_flake, encode_full, encode_legacy,
    flake_attr_of, records_from_versions, FullEntry, OneOrMany, PackageRecord, PkgMeta,
};
use nix_data::snapshot::{
    conclude_failed, plan_refresh, stamps_differ, stamps_differ_by_revision, CacheState,
    RefreshPlan, SnapshotStatus,
};
use nix_data::sources::{
    alias_eval_expr, alias_names_expr, latest_source, options_url, path_installable, ref_db_url,
    ref_stamp_url, resolve, rev_db_url, stamp_url, PayloadShape, SourceDescriptor, SourceLocation,
};
use nix_data::store::{into_batches, StoreTable};
use nix_data::version::{
    normalize_stamp, parse_registry, parse_version_output, release_line, RegistryEntry,
};
use nix_data::EngineError;

fn record(attr: &str, pname: &str, version: &str) -> PackageRecord {
    PackageRecord {
        attribute: attr.to_string(),
        pname: pname.to_string(),
        version: version.to_string(),
        system: None,
        meta: None,
    }
}

fn meta(broken: bool, insecure: bool) -> PkgMeta {
    PkgMeta {
        broken,
        insecure,
        unsupported: false,
        unfree: false,
        description: None,
        longdescription: None,
        license: None,
        platforms: None,
        homepage: None,
    }
}

fn record_with_meta(attr: &str, pname: &str, version: &str, m: PkgMeta) -> PackageRecord {
    PackageRecord {
        attribute: attr.to_string(),
        pname: pname.to_string(),
        version: version.to_string(),
        system: Some("x86_64-linux".to_string()),
        meta: Some(m),
    }
}

#[test]
fn fresh_after_commit_skips_fetch() {
    let mut state = CacheState { stamp: None, data_present: false };
    assert!(!state.is_fresh("24.05"));
    let sources = resolve("24.05", None).unwrap();
    match plan_refresh(&state, "24.05", sources) {
        RefreshPlan::Fetch(v) => assert_eq!(v.len(), 2),
        RefreshPlan::UseExisting => panic!("a cold cache must fetch"),
    }
    state.commit("24.05".to_string());
    assert!(state.is_fresh("24.05"));
    assert!(!state.is_fresh("24.11"));
    let sources = resolve("24.05", None).unwrap();
    let plan = plan_refresh(&state, "24.05", sources);
    assert!(matches!(plan, RefreshPlan::UseExisting));
}

#[test]
fn write_order_keeps_freshness_honest() {
    let mut state = CacheState { stamp: Some("24.05".to_string()), data_present: true };
    state.remove_data();
    assert!(!state.is_fresh("24.05"));
    state.install_data();
    state.write_stamp("24.11".to_string());
    assert!(state.is_fresh("24.11"));
}

#[test]
fn offline_fallback_returns_stale_snapshot() {
    let state = CacheState { stamp: Some("24.05".to_string()), data_present: true };
    assert_eq!(conclude_failed(&state), Ok(SnapshotStatus::Stale));
}

#[test]
fn offline_without_prior_snapshot_fails() {
    let state = CacheState { stamp: None, data_present: false };
    assert_eq!(conclude_failed(&state), Err(EngineError::Fetch));
}

#[test]
fn resolve_named_release_chain() {
    let sources = resolve("24.05", None).unwrap();
    assert_eq!(sources.len(), 2);
    match &sources[0] {
        SourceDescriptor { location: SourceLocation::Url(u), shape, compressed } => {
            assert_eq!(
                u,
                "https://raw.githubusercontent.com/snowflakelinux/nix-data-db/main/nixos-24.05/nixpkgs.db.br"
            );
            assert_eq!(*shape, PayloadShape::RelationalDump);
            assert!(*compressed);
        }
        _ => panic!("first source must be the precomputed database"),
    }
    match &sources[1] {
        SourceDescriptor { location: SourceLocation::Search(s), shape, compressed } => {
            assert_eq!(s, "nixpkgs");
            assert_eq!(*shape, PayloadShape::PackageListJson);
            assert!(!*compressed);
        }
        _ => panic!("last source must be the live search"),
    }
}

#[test]
fn resolve_prerelease_token_uses_rolling_line() {
    let sources = resolve("24.11pre123456.abcdef", None).unwrap();
    assert_eq!(sources.len(), 2);
    match &sources[0] {
        SourceDescriptor { location: SourceLocation::Url(u), .. } => {
            assert_eq!(
                u,
                "https://raw.githubusercontent.com/snowflakelinux/nix-data-db/main/nixos-unstable/nixpkgs.db.br"
            );
        }
        _ => panic!("first source must be the precomputed database"),
    }
    match &sources[1] {
        SourceDescriptor { location: SourceLocation::Search(s), .. } => assert_eq!(s, "nixpkgs"),
        _ => panic!("last source must be the live search"),
    }
}

#[test]
fn resolve_pinned_chain_tries_line_then_rolling_then_search() {
    let sources = resolve("24.05.1234", Some("abc123")).unwrap();
    assert_eq!(sources.len(), 3);
    match &sources[0] {
        SourceDescriptor { location: SourceLocation::Url(u), shape, compressed } => {
            assert_eq!(
                u,
                "https://raw.githubusercontent.com/snowflakelinux/nixpkgs-version-data/main/nixos-24.05/abc123.json.br"
            );
            assert_eq!(*shape, PayloadShape::PackageListJson);
            assert!(*compressed);
        }
        _ => panic!("first source must be the per-revision list"),
    }
    match &sources[1] {
        SourceDescriptor { location: SourceLocation::Url(u), .. } => {
            assert_eq!(
                u,
                "https://raw.githubusercontent.com/snowflakelinux/nixpkgs-version-data/main/nixos-unstable/abc123.json.br"
            );
        }
        _ => panic!("second source must be the rolling per-revision list"),
    }
    match &sources[2] {
        SourceDescriptor { location: SourceLocation::Search(s), compressed, .. } => {
            assert_eq!(s, "nixpkgs/abc123");
            assert!(!*compressed);
        }
        _ => panic!("last source must be the live search"),
    }
}

#[test]
fn release_line_rejects_short_tokens() {
    assert_eq!(release_line("1.2"), Err(EngineError::Probe));
    assert_eq!(release_line("24.05.1234").unwrap(), "24.05");
    assert_eq!(release_line("unstable").unwrap(), "unstable");
}

#[test]
fn version_output_parsing() {
    let bytes = br#"{"nixosVersion":"24.05.1234.abcdef","nixpkgsRevision":"abcdef"}"#;
    let info = parse_version_output(bytes).unwrap();
    assert_eq!(info.token, "24.05.1234.abcdef");
    assert_eq!(info.revision.as_deref(), Some("abcdef"));

    let bytes = br#"{"nixosVersion":"24.05.1234"}"#;
    let info = parse_version_output(bytes).unwrap();
    assert_eq!(info.revision, None);

    assert!(matches!(parse_version_output(b"not json"), Err(EngineError::Probe)));
    assert!(matches!(
        parse_version_output(br#"{"other":"x"}"#),
        Err(EngineError::Probe)
    ));
}

#[test]
fn registry_parsing_finds_pin_and_reference() {
    let reg = "global flake:nixpkgs github:NixOS/nixpkgs/nixpkgs-unstable\n";
    match parse_registry(reg) {
        RegistryEntry::Reference { name } => assert_eq!(name, "nixpkgs-unstable"),
        _ => panic!("expected a named reference"),
    }

    let reg = "user   flake:nixpkgs   github:NixOS/nixpkgs?ref=nixos-24.05&rev=0123abcd\n";
    match parse_registry(reg) {
        RegistryEntry::Pinned { revision } => assert_eq!(revision, "0123abcd"),
        _ => panic!("expected a pin"),
    }

    assert!(matches!(parse_registry("global flake:home something\n"), RegistryEntry::Absent));
    assert!(matches!(parse_registry(""), RegistryEntry::Absent));
}

#[test]
fn latest_source_per_registry_entry() {
    let s = latest_source(&RegistryEntry::Pinned { revision: "beef".to_string() });
    match s.location {
        SourceLocation::Url(u) => assert_eq!(
            u,
            "https://raw.githubusercontent.com/snowflakelinux/nixpkgs-version-data/main/nixos-unstable/beef.json.br"
        ),
        _ => panic!("expected an address"),
    }
    let s = latest_source(&RegistryEntry::Reference { name: "nixpkgs-unstable".to_string() });
    match s.location {
        SourceLocation::Url(u) => assert_eq!(
            u,
            "https://raw.githubusercontent.com/snowflakelinux/nix-data-db/main/nixpkgs-unstable/nixpkgs_versions.db.br"
        ),
        _ => panic!("expected an address"),
    }
    let s = latest_source(&RegistryEntry::Absent);
    match s.location {
        SourceLocation::Url(u) => assert!(u.ends_with("nixpkgs-unstable/nixpkgs_versions.db.br")),
        _ => panic!("expected an address"),
    }
}

#[test]
fn url_builders_produce_exact_addresses() {
    assert_eq!(
        stamp_url("24.05"),
        "https://raw.githubusercontent.com/snowflakelinux/nix-data-db/main/nixos-24.05/nixpkgs.ver"
    );
    assert_eq!(
        rev_db_url("unstable", "abc"),
        "https://raw.githubusercontent.com/snowflakelinux/nixpkgs-version-data/main/nixos-unstable/abc.json.br"
    );
    assert_eq!(
        options_url("24.05"),
        "https://channels.nixos.org/nixos-24.05/options.json.br"
    );
    assert_eq!(
        ref_db_url("nixpkgs-unstable"),
        "https://raw.githubusercontent.com/snowflakelinux/nix-data-db/main/nixpkgs-unstable/nixpkgs.db.br"
    );
    assert_eq!(
        ref_stamp_url("nixpkgs-unstable"),
        "https://raw.githubusercontent.com/snowflakelinux/nix-data-db/main/nixpkgs-unstable/nixpkgs.ver"
    );
}

#[test]
fn alias_expressions_follow_the_scope() {
    assert_eq!(
        alias_names_expr(None),
        "with import <nixpkgs> {}; builtins.attrNames ((self: super: lib.optionalAttrs config.allowAliases (import <nixpkgs/pkgs/top-level/aliases.nix> lib self super)) {} {})"
    );
    assert_eq!(
        alias_names_expr(Some("/nix/store/abc-source")),
        "with import /nix/store/abc-source {}; builtins.attrNames ((self: super: lib.optionalAttrs config.allowAliases (import /nix/store/abc-source/pkgs/top-level/aliases.nix lib self super)) {} {})"
    );
    assert_eq!(
        alias_eval_expr(None, "firefox"),
        "with import <nixpkgs> {}; ((self: super: lib.optionalAttrs config.allowAliases (import <nixpkgs/pkgs/top-level/aliases.nix> lib self super)) {} {}).firefox"
    );
    assert_eq!(
        alias_eval_expr(Some("/nix/store/abc-source"), "firefox"),
        "with import /nix/store/abc-source {}; ((self: super: lib.optionalAttrs config.allowAliases (import /nix/store/abc-source/pkgs/top-level/aliases.nix lib self super)) {} {}).firefox"
    );
    assert_eq!(path_installable(None), "nixpkgs#path");
    assert_eq!(path_installable(Some("abc123")), "nixpkgs/abc123#path");
}

#[test]
fn flat_version_lists_become_records() {
    let pairs = vec![
        ("hello".to_string(), "1.0".to_string()),
        ("git".to_string(), "2.44".to_string()),
    ];
    let records = records_from_versions(&pairs);
    assert_eq!(records.len(), 2);
    assert_eq!(records[0].attribute, "hello");
    assert_eq!(records[0].pname, "hello");
    assert_eq!(records[0].version, "1.0");
    assert!(records[0].system.is_none() && records[0].meta.is_none());
    assert_eq!(records[1].attribute, "git");
    assert_eq!(records[1].version, "2.44");
}

#[test]
fn normalize_stamp_strips_marker() {
    assert_eq!(normalize_stamp("nixos-24.05.1234"), "24.05.1234");
    assert_eq!(normalize_stamp("24.05.1234"), "24.05.1234");
}

#[test]
fn brotli_round_trip_through_decoder() {
    let plain = br#"{"hello":"1.0","git":"2.44"}"#;
    let mut compressed: Vec<u8> = Vec::new();
    {
        let mut w = brotli::CompressorWriter::new(&mut compressed, 4096, 5, 22);
        std::io::Write::write_all(&mut w, plain).unwrap();
    }
    assert_ne!(compressed, plain.to_vec());
    let decoded = brotli_decompress(&compressed).unwrap();
    assert_eq!(decoded, plain.to_vec());
    let pairs = parse_string_object(&decoded).unwrap();
    assert_eq!(assoc_get(&pairs, "hello").as_deref(), Some("1.0"));
    assert_eq!(assoc_get(&pairs, "git").as_deref(), Some("2.44"));
    assert_eq!(assoc_get(&pairs, "missing"), None);
}

#[test]
fn assoc_lookup_last_write_wins() {
    let pairs = vec![
        ("k".to_string(), "1".to_string()),
        ("other".to_string(), "x".to_string()),
        ("k".to_string(), "2".to_string()),
    ];
    assert_eq!(assoc_get(&pairs, "k").as_deref(), Some("2"));
    assert_eq!(assoc_get(&pairs, "other").as_deref(), Some("x"));
}

#[test]
fn invalid_payloads_are_rejected() {
    assert!(brotli_decompress(&[0xff, 0xfe, 0x00, 0x01, 0x02]).is_none());
    assert!(parse_string_object(b"[1,2,3]").is_none());
    assert!(parse_string_object(br#"{"a":1}"#).is_none());
}

#[test]
fn legacy_round_trip_preserves_base_mapping() {
    let records = vec![record("hello", "hello", "1.0"), record("git", "git", "2.44")];
    let decoded = decode_legacy(&encode_legacy(&records));
    assert_eq!(decoded.len(), 2);
    for (a, b) in records.iter().zip(decoded.iter()) {
        assert_eq!(a.attribute, b.attribute);
        assert_eq!(a.pname, b.pname);
        assert_eq!(a.version, b.version);
    }
}

#[test]
fn flake_round_trip_preserves_dotted_attributes() {
    let records = vec![
        record("hello", "hello", "1.0"),
        record("python3Packages.requests", "python3-requests", "2.31"),
    ];
    let decoded = decode_flake(&encode_flake(&records));
    assert_eq!(decoded.len(), 2);
    for (a, b) in records.iter().zip(decoded.iter()) {
        assert_eq!(a.attribute, b.attribute);
        assert_eq!(a.pname, b.pname);
        assert_eq!(a.version, b.version);
    }
}

#[test]
fn full_round_trip_preserves_metadata() {
    let m = PkgMeta {
        broken: false,
        insecure: true,
        unsupported: false,
        unfree: true,
        description: Some("a package".to_string()),
        longdescription: None,
        license: Some(OneOrMany::One("MIT".to_string())),
        platforms: Some(OneOrMany::Many(vec![
            "x86_64-linux".to_string(),
            "aarch64-linux".to_string(),
        ])),
        homepage: None,
    };
    let records = vec![record_with_meta("hello", "hello", "1.0", m)];
    let decoded = decode_full(&encode_full(&records));
    assert_eq!(decoded.len(), 1);
    let back = &decoded[0];
    assert_eq!(back.attribute, "hello");
    assert_eq!(back.system.as_deref(), Some("x86_64-linux"));
    let bm = back.meta.as_ref().unwrap();
    assert!(bm.insecure && !bm.broken && bm.unfree);
    assert_eq!(bm.description.as_deref(), Some("a package"));
    match bm.license.as_ref().unwrap() {
        OneOrMany::One(s) => assert_eq!(s, "MIT"),
        _ => panic!("license must stay a single value"),
    }
    match bm.platforms.as_ref().unwrap() {
        OneOrMany::Many(v) => assert_eq!(v, &vec!["x86_64-linux".to_string(), "aarch64-linux".to_string()]),
        _ => panic!("platforms must stay a list"),
    }
}

#[test]
fn one_or_many_normalization() {
    let one = OneOrMany::One("MIT".to_string());
    assert_eq!(one.first_value().as_deref(), Some("MIT"));
    assert_eq!(one.joined(' '), "MIT");
    let many = OneOrMany::Many(vec!["a".to_string(), "b".to_string()]);
    assert_eq!(many.first_value().as_deref(), Some("a"));
    assert_eq!(many.joined(' '), "a b");
    let empty = OneOrMany::Many(Vec::new());
    assert_eq!(empty.first_value(), None);
    assert_eq!(empty.joined(' '), "");
}

#[test]
fn flake_key_normalizes_to_attribute() {
    assert_eq!(
        flake_attr_of("legacyPackages.x86_64-linux.hello").as_deref(),
        Some("hello")
    );
    assert_eq!(
        flake_attr_of("legacyPackages.x86_64-linux.python3Packages.requests").as_deref(),
        Some("python3Packages.requests")
    );
    assert_eq!(flake_attr_of("bare").as_deref(), None);
}

#[test]
fn store_lookup_and_last_write_wins() {
    let records = vec![
        record("hello", "hello", "1.0"),
        record("git", "git", "2.44"),
        record("hello", "hello", "1.1"),
    ];
    let store = StoreTable::load(&records);
    let row = store.lookup("hello").unwrap();
    assert_eq!(row.version, "1.1");
    assert!(store.lookup("git").is_some());
    assert!(store.lookup("missing").is_none());
}

#[test]
fn versions_of_omits_lookup_misses() {
    let store = StoreTable::load(&vec![record("hello", "hello", "1.0")]);
    let attrs = vec!["hello".to_string(), "missing".to_string()];
    let versions = versions_of(&store, &attrs);
    assert_eq!(versions, vec![("hello".to_string(), "1.0".to_string())]);
}

#[test]
fn profile_version_strips_prefix_exactly_once() {
    let store = StoreTable::load(&vec![record("firefox", "firefox", "128.0")]);
    assert_eq!(
        profile_version(&store, "firefox", "firefox-128.0").as_deref(),
        Some("128.0")
    );
    assert_eq!(
        profile_version(&store, "firefox", "firefox-unstable-2024-01-01").as_deref(),
        Some("unstable-2024-01-01")
    );
    assert_eq!(profile_version(&store, "firefox", "chromium-1.0"), None);
    assert_eq!(profile_version(&store, "missing", "firefox-128.0"), None);
}

#[test]
fn broken_precedes_insecure() {
    let rec = record_with_meta("pkg", "pkg", "1.0", meta(true, true));
    assert_eq!(
        availability_reason(Some(&rec)).as_deref(),
        Some("package is marked as broken")
    );
    let rec = record_with_meta("pkg", "pkg", "1.0", meta(false, true));
    assert_eq!(
        availability_reason(Some(&rec)).as_deref(),
        Some("package is marked as insecure")
    );
    let rec = record_with_meta("pkg", "pkg", "1.0", meta(false, false));
    assert_eq!(availability_reason(Some(&rec)), None);
    assert_eq!(
        availability_reason(None).as_deref(),
        Some("package not found in newer version")
    );
    let bare = record("pkg", "pkg", "1.0");
    assert_eq!(availability_reason(Some(&bare)), None);
}

#[test]
fn alias_reason_cleans_error_text() {
    assert_eq!(
        alias_reason(true, false, "error: attribute gone\n").as_deref(),
        Some("attribute gone")
    );
    assert_eq!(
        alias_reason(true, false, "plain failure").as_deref(),
        Some("plain failure")
    );
    assert_eq!(alias_reason(true, true, "error: ignored"), None);
    assert_eq!(alias_reason(false, false, "error: ignored"), None);
}

#[test]
fn unavailability_report_merges_alias_and_store_passes() {
    let store = StoreTable::load(&vec![
        record_with_meta("badpkg", "badpkg", "1.0", meta(true, true)),
        record("goodpkg", "goodpkg", "2.0"),
    ]);
    let probes = vec![
        AliasProbe {
            attr: "oldname".to_string(),
            is_alias: true,
            eval_ok: false,
            stderr: "error: removed upstream".to_string(),
        },
        AliasProbe {
            attr: "badpkg".to_string(),
            is_alias: false,
            eval_ok: true,
            stderr: String::new(),
        },
        AliasProbe {
            attr: "goodpkg".to_string(),
            is_alias: false,
            eval_ok: true,
            stderr: String::new(),
        },
    ];
    let report = unavailability_report(&probes, &store);
    let find = |k: &str| {
        report
            .iter()
            .rev()
            .find(|(a, _)| a == k)
            .map(|(_, r)| r.clone())
    };
    assert_eq!(find("oldname").as_deref(), Some("package not found in newer version"));
    assert_eq!(find("badpkg").as_deref(), Some("package is marked as broken"));
    assert_eq!(find("goodpkg"), None);
}

#[test]
fn stamp_comparisons() {
    assert_eq!(stamps_differ("24.05", "24.05"), None);
    assert_eq!(
        stamps_differ("24.05", "24.11"),
        Some(("24.05".to_string(), "24.11".to_string()))
    );
    assert_eq!(
        stamps_differ_by_revision("24.05.1234.abc", "24.05.1299.abcdef"),
        None
    );
    assert_eq!(
        stamps_differ_by_revision("24.05.1234.xyz", "24.05.1299.abcdef"),
        Some(("24.05.1234.xyz".to_string(), "24.05.1299.abcdef".to_string()))
    );
}

#[test]
fn batches_bound_size_and_keep_order() {
    let records: Vec<PackageRecord> = (0..7)
        .map(|i| record(&format!("pkg{}", i), "p", "1"))
        .collect();
    let batches = into_batches(&records, 3);
    assert_eq!(batches.len(), 3);
    assert_eq!(batches[0].len(), 3);
    assert_eq!(batches[1].len(), 3);
    assert_eq!(batches[2].len(), 1);
    let flat: Vec<String> = batches
        .iter()
        .flat_map(|b| b.iter().map(|r| r.attribute.clone()))
        .collect();
    let expect: Vec<String> = (0..7).map(|i| format!("pkg{}", i)).collect();
    assert_eq!(flat, expect);

    let six: Vec<PackageRecord> = (0..6)
        .map(|i| record(&format!("pkg{}", i), "p", "1"))
        .collect();
    let even = into_batches(&six, 3);
    assert_eq!(even.len(), 2);
    assert!(even.iter().all(|b| b.len() == 3));
}

#[test]
fn config_source_prefers_user_file() {
    assert_eq!(config_source(true, true), Some(ConfigSource::User));
    assert_eq!(config_source(true, false), Some(ConfigSource::User));
    assert_eq!(config_source(false, true), Some(ConfigSource::System));
    assert_eq!(config_source(false, false), None);
}

#[test]
fn generations_default_to_five() {
    let cfg = NixDataConfig { systemconfig: None, flake: None, flakearg: None, generations: None };
    assert_eq!(generations_to_keep(&cfg), 5);
    let cfg = NixDataConfig { generations: Some(0), ..cfg };
    assert_eq!(generations_to_keep(&cfg), 0);
}

#[test]
fn engine_error_messages() {
    assert_eq!(EngineError::Probe.message(), "could not determine the current version");
    assert_eq!(EngineError::Fetch.message(), "no source reachable and no cached snapshot");
    assert_eq!(EngineError::Decode.message(), "payload does not match the expected shape");
    assert_eq!(EngineError::Store.message(), "snapshot store failure");
}
