//! The version probe: interpreting what the version-reporting program and
//! the registry-listing program print, and deriving the release line a
//! version token belongs to.

use vstd::prelude::*;
use crate::EngineError;
use crate::payload::{json_string_object, map_of_pairs, pairs_view, parse_string_object, assoc_get};
use crate::strutil::{
    eq_str, find_str, lemma_spec_find, match_at, replace_all, spec_find, spec_replace, spec_split,
    spec_starts_with, split_str,
};

verus! {

/// What the version-reporting program said: the current version token and,
/// when the system pins its package set, the pinned revision.
pub struct VersionInfo {
    /// The system's version token.
    pub token: String,
    /// The pinned source revision, when the report carries one.
    pub revision: Option<String>,
}

/// The key under which the version report carries the version token.
pub open spec fn version_key() -> Seq<char> {
    "nixosVersion"@
}

/// The key under which the version report carries the pinned revision.
pub open spec fn revision_key() -> Seq<char> {
    "nixpkgsRevision"@
}

/// Reads the version token and the optional pinned revision out of the
/// version-reporting program's JSON output. Fails exactly when the bytes
/// are not a JSON object of strings or the version entry is missing.
pub fn parse_version_output(bytes: &[u8]) -> (r: Result<VersionInfo, EngineError>)
    ensures
        match r {
            Ok(info) => json_string_object(bytes@) matches Some(m) && m.contains_key(version_key())
                && info.token@ == m[version_key()] && (match info.revision {
                Some(rv) => m.contains_key(revision_key()) && rv@ == m[revision_key()],
                None => !m.contains_key(revision_key()),
            }),
            Err(e) => e == EngineError::Probe && (json_string_object(bytes@) is None
                || (json_string_object(bytes@) matches Some(m) && !m.contains_key(version_key()))),
        },
{
    match parse_string_object(bytes) {
        None => Err(EngineError::Probe),
        Some(pairs) => {
            match assoc_get(&pairs, "nixosVersion") {
                None => Err(EngineError::Probe),
                Some(token) => {
                    let revision = assoc_get(&pairs, "nixpkgsRevision");
                    Ok(VersionInfo { token, revision })
                },
            }
        },
    }
}

/// The release line a version token belongs to: the literal rolling-line
/// token and tokens carrying the pre-release marker after the release
/// number map to the rolling line; any other token of at least five
/// characters names its release by its first five characters; shorter
/// tokens name no release line.
pub open spec fn spec_release_line(token: Seq<char>) -> Option<Seq<char>> {
    if token == "unstable"@ {
        Some("unstable"@)
    } else if token.len() >= 8 && token.subrange(5, 8) == "pre"@ {
        Some("unstable"@)
    } else if token.len() >= 5 {
        Some(token.take(5))
    } else {
        None
    }
}

/// Derives the release line of a version token; fails exactly on tokens
/// too short to name one.
pub fn release_line(token: &str) -> (r: Result<String, EngineError>)
    ensures
        match r {
            Ok(line) => spec_release_line(token@) == Some(line@),
            Err(e) => e == EngineError::Probe && spec_release_line(token@) is None,
        },
{
    let len = token.unicode_len();
    if eq_str(token, "unstable") {
        return Ok(String::from_str("unstable"));
    }
    if len >= 8 {
        let marker = token.substring_char(5, 8);
        if eq_str(marker, "pre") {
            return Ok(String::from_str("unstable"));
        }
    }
    if len >= 5 {
        let line = token.substring_char(0, 5);
        proof {
            assert(token@.subrange(0, 5) =~= token@.take(5));
        }
        Ok(String::from_str(line))
    } else {
        Err(EngineError::Probe)
    }
}

/// The marker a fetched version stamp may carry before the bare token.
pub open spec fn release_marker() -> Seq<char> {
    "nixos-"@
}

/// A fetched version stamp normalized to the bare token: the well-known
/// release marker is stripped when present, anything else is kept as it
/// stands.
pub open spec fn spec_normalize_stamp(s: Seq<char>) -> Seq<char> {
    if spec_starts_with(s, release_marker()) {
        s.skip(release_marker().len() as int)
    } else {
        s
    }
}

/// Normalizes a fetched version stamp to the bare token.
pub fn normalize_stamp(s: &str) -> (r: String)
    ensures
        r@ == spec_normalize_stamp(s@),
{
    match crate::strutil::strip_prefix_str(s, "nixos-") {
        Some(rest) => rest,
        None => String::from_str(s),
    }
}

/// What the registry listing says about the package-set entry: pinned to
/// an exact revision, following a named reference, or absent.
pub enum RegistryEntry {
    /// The entry fixes an exact immutable revision.
    Pinned { revision: String },
    /// The entry follows a named moving reference.
    Reference { name: String },
    /// No entry for the package set was listed.
    Absent,
}

/// The registry line token that names the package-set flake.
pub open spec fn flake_key() -> Seq<char> {
    "flake:nixpkgs"@
}

/// The target of a registry line: its third word, when its second word
/// names the package-set flake.
pub open spec fn line_target(line: Seq<char>) -> Option<Seq<char>> {
    let parts = spec_split(line, ' ');
    if parts.len() >= 3 && parts[1] == flake_key() {
        Some(parts[2])
    } else {
        None
    }
}

/// The target of the first line that names the package-set flake.
pub open spec fn first_target(lines: Seq<Seq<char>>) -> Option<Seq<char>>
    decreases lines.len(),
{
    if lines.len() == 0 {
        None
    } else if line_target(lines[0]) is Some {
        line_target(lines[0])
    } else {
        first_target(lines.skip(1))
    }
}

/// The target the whole registry listing names for the package set:
/// runs of three spaces are collapsed, the text is split into lines, and
/// the first line for the package-set flake decides.
pub open spec fn spec_registry_target(reg: Seq<char>) -> Option<Seq<char>> {
    first_target(spec_split(spec_replace(reg, "   "@, " "@), '\n'))
}

/// The revision a registry target pins, when it carries the revision
/// parameter: everything after the first occurrence of the marker.
pub open spec fn spec_pin_of(target: Seq<char>) -> Option<Seq<char>> {
    match spec_find(target, "&rev="@) {
        Some(i) => Some(target.skip(i + "&rev="@.len())),
        None => None,
    }
}

/// The reference name of an unpinned registry target: the target with the
/// well-known package-set location prefix removed.
pub open spec fn spec_ref_of(target: Seq<char>) -> Seq<char> {
    spec_replace(target, "github:NixOS/nixpkgs/"@, Seq::<char>::empty())
}

/// Classifies a registry target as a pin or a named reference.
fn classify_target(target: &str) -> (r: RegistryEntry)
    ensures
        match spec_pin_of(target@) {
            Some(rv) => r matches RegistryEntry::Pinned { revision } && revision@ == rv,
            None => r matches RegistryEntry::Reference { name } && name@ == spec_ref_of(target@),
        },
{
    proof {
        reveal_strlit("&rev=");
        lemma_spec_find(target@, "&rev="@);
    }
    let len = target.unicode_len();
    match find_str(target, "&rev=") {
        Some(i) => {
            proof {
                match spec_find(target@, "&rev="@) {
                    Some(k) => {
                        if k < i {
                            assert(match_at(target@, "&rev="@, k));
                            assert(false);
                        } else if k > i {
                            assert(!match_at(target@, "&rev="@, i as int));
                            assert(false);
                        }
                    },
                    None => {
                        assert(!match_at(target@, "&rev="@, i as int));
                        assert(false);
                    },
                }
            }
            let revision = String::from_str(target.substring_char(i + 5, len));
            proof {
                assert(target@.subrange(i + 5, target@.len() as int) =~= target@.skip(i + 5));
            }
            RegistryEntry::Pinned { revision }
        },
        None => {
            proof {
                match spec_find(target@, "&rev="@) {
                    Some(k) => {
                        assert(match_at(target@, "&rev="@, k));
                        assert(false);
                    },
                    None => {},
                }
            }
            let name = replace_all(target, "github:NixOS/nixpkgs/", "");
            proof {
                reveal_strlit("");
                assert(""@ =~= Seq::<char>::empty());
            }
            RegistryEntry::Reference { name }
        },
    }
}

/// Reads the package-set entry out of the registry-listing program's
/// output: the first line for the package-set flake decides, a revision
/// parameter in its target makes it a pin, and without such a line there
/// is no entry. Absence of a pin is not an error.
pub fn parse_registry(reg: &str) -> (r: RegistryEntry)
    ensures
        match spec_registry_target(reg@) {
            None => r is Absent,
            Some(target) => match spec_pin_of(target) {
                Some(rv) => r matches RegistryEntry::Pinned { revision } && revision@ == rv,
                None => r matches RegistryEntry::Reference { name } && name@ == spec_ref_of(
                    target,
                ),
            },
        },
{
    let collapsed = replace_all(reg, "   ", " ");
    let lines = split_str(collapsed.as_str(), '\n');
    let ghost lv = lines.deep_view();
    let mut i: usize = 0;
    proof {
        assert(lv.skip(0) =~~= lv);
    }
    while i < lines.len()
        invariant
            0 <= i <= lines@.len(),
            lv == lines.deep_view(),
            lv.len() == lines@.len(),
            first_target(lv) == first_target(lv.skip(i as int)),
            spec_registry_target(reg@) == first_target(lv),
        decreases lines@.len() - i,
    {
        let parts = split_str(lines[i].as_str(), ' ');
        proof {
            assert(lv.skip(i as int)[0] == lv[i as int]);
            assert(lv.skip(i as int).skip(1) =~~= lv.skip(i + 1));
            assert(parts.deep_view() == spec_split(lv[i as int], ' '));
        }
        if parts.len() >= 3 && eq_str(parts[1].as_str(), "flake:nixpkgs") {
            proof {
                assert(line_target(lv[i as int]) == Some(parts.deep_view()[2]));
            }
            return classify_target(parts[2].as_str());
        }
        proof {
            assert(line_target(lv[i as int]) is None);
        }
        i += 1;
    }
    proof {
        assert(lv.skip(lv.len() as int) =~~= Seq::<Seq<char>>::empty());
    }
    RegistryEntry::Absent
}

} // verus!
