//! The source resolver: given a version token and an optional pinned
//! revision, the ordered list of upstream locations and payload shapes to
//! try, first success winning.

use vstd::prelude::*;
use crate::EngineError;
use crate::version::{release_line, spec_release_line, RegistryEntry};

verus! {

/// How a payload is shaped once any compression is undone.
#[derive(Clone, Copy, PartialEq, Eq, Structural, Debug)]
pub enum PayloadShape {
    /// A precomputed relational dump, ready to store as the data file.
    RelationalDump,
    /// A JSON package list to normalize and load.
    PackageListJson,
}

/// Where a payload comes from.
#[derive(Clone, Debug)]
pub enum SourceLocation {
    /// Fetched over the network from this address.
    Url(String),
    /// Produced by the live package-search program scoped to this
    /// installable.
    Search(String),
}

/// One upstream source: a location, the shape of what it serves, and
/// whether the transfer is brotli-compressed.
#[derive(Clone, Debug)]
pub struct SourceDescriptor {
    pub location: SourceLocation,
    pub shape: PayloadShape,
    pub compressed: bool,
}

/// The view of a source location.
pub enum SourceLocationV {
    Url(Seq<char>),
    Search(Seq<char>),
}

/// The view of a source descriptor.
pub struct SourceDescriptorV {
    pub location: SourceLocationV,
    pub shape: PayloadShape,
    pub compressed: bool,
}

impl View for SourceLocation {
    type V = SourceLocationV;

    open spec fn view(&self) -> SourceLocationV {
        match self {
            SourceLocation::Url(u) => SourceLocationV::Url(u@),
            SourceLocation::Search(s) => SourceLocationV::Search(s@),
        }
    }
}

impl View for SourceDescriptor {
    type V = SourceDescriptorV;

    open spec fn view(&self) -> SourceDescriptorV {
        SourceDescriptorV { location: self.location@, shape: self.shape, compressed: self.compressed }
    }
}

/// The views of a list of source descriptors.
pub open spec fn descriptors_view(v: Seq<SourceDescriptor>) -> Seq<SourceDescriptorV> {
    Seq::new(v.len(), |i: int| v[i]@)
}

/// The mirror that serves precomputed per-revision package lists.
pub open spec fn rev_data_base() -> Seq<char> {
    "https://raw.githubusercontent.com/snowflakelinux/nixpkgs-version-data/main/"@
}

/// The mirror that serves precomputed relational dumps and version stamps.
pub open spec fn db_base() -> Seq<char> {
    "https://raw.githubusercontent.com/snowflakelinux/nix-data-db/main/"@
}

fn rev_data_base_str() -> (r: &'static str)
    ensures
        r@ == rev_data_base(),
{
    "https://raw.githubusercontent.com/snowflakelinux/nixpkgs-version-data/main/"
}

fn db_base_str() -> (r: &'static str)
    ensures
        r@ == db_base(),
{
    "https://raw.githubusercontent.com/snowflakelinux/nix-data-db/main/"
}

/// The address of the per-revision package list for a release line.
pub open spec fn spec_rev_db_url(line: Seq<char>, rev: Seq<char>) -> Seq<char> {
    rev_data_base() + "nixos-"@ + line + "/"@ + rev + ".json.br"@
}

/// The address of the precomputed relational dump for a release line.
pub open spec fn spec_release_db_url(line: Seq<char>) -> Seq<char> {
    db_base() + "nixos-"@ + line + "/nixpkgs.db.br"@
}

/// The address of the current version stamp for a release line.
pub open spec fn spec_stamp_url(line: Seq<char>) -> Seq<char> {
    db_base() + "nixos-"@ + line + "/nixpkgs.ver"@
}

/// The address of the versions dump for a named registry reference.
pub open spec fn spec_versions_db_url(name: Seq<char>) -> Seq<char> {
    db_base() + name + "/nixpkgs_versions.db.br"@
}

/// The address of the version stamp for a named registry reference.
pub open spec fn spec_ref_stamp_url(name: Seq<char>) -> Seq<char> {
    db_base() + name + "/nixpkgs.ver"@
}

/// The release-channel host that serves option listings.
pub open spec fn channels_base() -> Seq<char> {
    "https://channels.nixos.org/"@
}

fn channels_base_str() -> (r: &'static str)
    ensures
        r@ == channels_base(),
{
    "https://channels.nixos.org/"
}

/// The address of a release line's channel page, whose final redirect
/// names the current release.
pub open spec fn spec_channel_url(line: Seq<char>) -> Seq<char> {
    channels_base() + "nixos-"@ + line
}

/// The address of a release line's compressed option listing.
pub open spec fn spec_options_url(line: Seq<char>) -> Seq<char> {
    channels_base() + "nixos-"@ + line + "/options.json.br"@
}

/// The address of the relational dump for a plain reference name, the
/// rolling package set on systems without the full distribution.
pub open spec fn spec_ref_db_url(name: Seq<char>) -> Seq<char> {
    db_base() + name + "/nixpkgs.db.br"@
}

/// Builds the channel-page address of a release line.
pub fn channel_url(line: &str) -> (r: String)
    ensures
        r@ == spec_channel_url(line@),
{
    let mut s = String::from_str(channels_base_str());
    s.append("nixos-");
    s.append(line);
    s
}

/// Builds the option-listing address of a release line.
pub fn options_url(line: &str) -> (r: String)
    ensures
        r@ == spec_options_url(line@),
{
    let mut s = String::from_str(channels_base_str());
    s.append("nixos-");
    s.append(line);
    s.append("/options.json.br");
    s
}

/// Builds the relational-dump address for a plain reference name.
pub fn ref_db_url(name: &str) -> (r: String)
    ensures
        r@ == spec_ref_db_url(name@),
{
    let mut s = String::from_str(db_base_str());
    s.append(name);
    s.append("/nixpkgs.db.br");
    s
}

/// The installable the live search program is scoped to: the package set,
/// at an exact revision when one is pinned.
pub open spec fn spec_search_scope(rev: Option<Seq<char>>) -> Seq<char> {
    match rev {
        Some(r) => "nixpkgs/"@ + r,
        None => "nixpkgs"@,
    }
}

/// Builds the per-revision package-list address.
pub fn rev_db_url(line: &str, rev: &str) -> (r: String)
    ensures
        r@ == spec_rev_db_url(line@, rev@),
{
    let mut s = String::from_str(rev_data_base_str());
    s.append("nixos-");
    s.append(line);
    s.append("/");
    s.append(rev);
    s.append(".json.br");
    s
}

/// Builds the release-line relational-dump address.
pub fn release_db_url(line: &str) -> (r: String)
    ensures
        r@ == spec_release_db_url(line@),
{
    let mut s = String::from_str(db_base_str());
    s.append("nixos-");
    s.append(line);
    s.append("/nixpkgs.db.br");
    s
}

/// Builds the release-line version-stamp address.
pub fn stamp_url(line: &str) -> (r: String)
    ensures
        r@ == spec_stamp_url(line@),
{
    let mut s = String::from_str(db_base_str());
    s.append("nixos-");
    s.append(line);
    s.append("/nixpkgs.ver");
    s
}

/// Builds the versions-dump address for a named registry reference.
pub fn versions_db_url(name: &str) -> (r: String)
    ensures
        r@ == spec_versions_db_url(name@),
{
    let mut s = String::from_str(db_base_str());
    s.append(name);
    s.append("/nixpkgs_versions.db.br");
    s
}

/// Builds the version-stamp address for a named registry reference.
pub fn ref_stamp_url(name: &str) -> (r: String)
    ensures
        r@ == spec_ref_stamp_url(name@),
{
    let mut s = String::from_str(db_base_str());
    s.append(name);
    s.append("/nixpkgs.ver");
    s
}

/// Builds the live-search scope.
pub fn search_scope(rev: Option<&str>) -> (r: String)
    ensures
        r@ == spec_search_scope(match rev {
            Some(v) => Some(v@),
            None => None,
        }),
{
    match rev {
        Some(v) => {
            let mut s = String::from_str("nixpkgs/");
            s.append(v);
            s
        },
        None => String::from_str("nixpkgs"),
    }
}

/// The opening of the alias-resolution expressions: importing the
/// package set.
pub open spec fn expr_import() -> Seq<char> {
    "with import "@
}

/// The middle of the alias-listing expression, up to the aliases file.
pub open spec fn expr_names_mid() -> Seq<char> {
    " {}; builtins.attrNames ((self: super: lib.optionalAttrs config.allowAliases (import "@
}

/// The middle of the alias-evaluation expression, up to the aliases
/// file.
pub open spec fn expr_eval_mid() -> Seq<char> {
    " {}; ((self: super: lib.optionalAttrs config.allowAliases (import "@
}

/// The closing of both alias expressions.
pub open spec fn expr_close() -> Seq<char> {
    " lib self super)) {} {})"@
}

/// What the evaluator is pointed at: an explicit package-set path, with
/// its aliases file under it, or the channel's angle-bracket lookup when
/// no path is known. A pinned system hands the pinned set's path here,
/// so aliases are resolved against the pinned set, not the moving line.
pub open spec fn spec_alias_scope(path: Option<Seq<char>>) -> (Seq<char>, Seq<char>) {
    match path {
        Some(p) => (p, p + "/pkgs/top-level/aliases.nix"@),
        None => ("<nixpkgs>"@, "<nixpkgs/pkgs/top-level/aliases.nix>"@),
    }
}

/// The expression that lists the package set's alias names.
pub open spec fn spec_alias_names_expr(scope: Seq<char>, aliases: Seq<char>) -> Seq<char> {
    expr_import() + scope + expr_names_mid() + aliases + expr_close()
}

/// The expression that evaluates one alias of the package set.
pub open spec fn spec_alias_eval_expr(scope: Seq<char>, aliases: Seq<char>, attr: Seq<char>)
    -> Seq<char> {
    expr_import() + scope + expr_eval_mid() + aliases + expr_close() + seq!['.'] + attr
}

/// Builds the alias-listing expression, scoped to the given package-set
/// path when one is known.
pub fn alias_names_expr(path: Option<&str>) -> (r: String)
    ensures
        ({
            let sc = spec_alias_scope(
                match path {
                    Some(p) => Some(p@),
                    None => None,
                },
            );
            r@ == spec_alias_names_expr(sc.0, sc.1)
        }),
{
    let mut s = String::from_str("with import ");
    match path {
        Some(p) => {
            s.append(p);
            s.append(
                " {}; builtins.attrNames ((self: super: lib.optionalAttrs config.allowAliases (import ",
            );
            s.append(p);
            s.append("/pkgs/top-level/aliases.nix");
            s.append(" lib self super)) {} {})");
            proof {
                assert(s@ =~= spec_alias_names_expr(p@, p@ + "/pkgs/top-level/aliases.nix"@));
            }
        },
        None => {
            s.append("<nixpkgs>");
            s.append(
                " {}; builtins.attrNames ((self: super: lib.optionalAttrs config.allowAliases (import ",
            );
            s.append("<nixpkgs/pkgs/top-level/aliases.nix>");
            s.append(" lib self super)) {} {})");
        },
    }
    s
}

/// Builds the alias-evaluation expression for one attribute, scoped to
/// the given package-set path when one is known.
pub fn alias_eval_expr(path: Option<&str>, attr: &str) -> (r: String)
    ensures
        ({
            let sc = spec_alias_scope(
                match path {
                    Some(p) => Some(p@),
                    None => None,
                },
            );
            r@ == spec_alias_eval_expr(sc.0, sc.1, attr@)
        }),
{
    let mut s = String::from_str("with import ");
    match path {
        Some(p) => {
            s.append(p);
            s.append(" {}; ((self: super: lib.optionalAttrs config.allowAliases (import ");
            s.append(p);
            s.append("/pkgs/top-level/aliases.nix");
            s.append(" lib self super)) {} {})");
            s.push('.');
            s.append(attr);
            proof {
                assert(s@ =~= spec_alias_eval_expr(
                    p@,
                    p@ + "/pkgs/top-level/aliases.nix"@,
                    attr@,
                ));
            }
        },
        None => {
            s.append("<nixpkgs>");
            s.append(" {}; ((self: super: lib.optionalAttrs config.allowAliases (import ");
            s.append("<nixpkgs/pkgs/top-level/aliases.nix>");
            s.append(" lib self super)) {} {})");
            s.push('.');
            s.append(attr);
            proof {
                assert(s@ =~= spec_alias_eval_expr(
                    "<nixpkgs>"@,
                    "<nixpkgs/pkgs/top-level/aliases.nix>"@,
                    attr@,
                ));
            }
        },
    }
    s
}

/// The installable whose evaluation yields the package set's path: the
/// set at an exact revision when one is pinned.
pub open spec fn spec_path_installable(rev: Option<Seq<char>>) -> Seq<char> {
    match rev {
        Some(r) => "nixpkgs/"@ + r + "#path"@,
        None => "nixpkgs#path"@,
    }
}

/// Builds the path installable for the evaluator.
pub fn path_installable(rev: Option<&str>) -> (r: String)
    ensures
        r@ == spec_path_installable(
            match rev {
                Some(v) => Some(v@),
                None => None,
            },
        ),
{
    match rev {
        Some(v) => {
            let mut s = String::from_str("nixpkgs/");
            s.append(v);
            s.append("#path");
            s
        },
        None => String::from_str("nixpkgs#path"),
    }
}

/// The ordered source chain for a version token, defined when the token
/// names a release line.
///
/// With a pinned revision: the per-revision list under the token's release
/// line, the same list under the rolling line (in case the release-line
/// guess was wrong), then the live search scoped to the exact revision.
/// Without one: the release line's precomputed relational dump, then the
/// live search scoped to the package set.
pub open spec fn spec_resolve(token: Seq<char>, pin: Option<Seq<char>>) -> Seq<SourceDescriptorV> {
    let line = spec_release_line(token).unwrap();
    match pin {
        Some(rev) => seq![
            SourceDescriptorV {
                location: SourceLocationV::Url(spec_rev_db_url(line, rev)),
                shape: PayloadShape::PackageListJson,
                compressed: true,
            },
            SourceDescriptorV {
                location: SourceLocationV::Url(spec_rev_db_url("unstable"@, rev)),
                shape: PayloadShape::PackageListJson,
                compressed: true,
            },
            SourceDescriptorV {
                location: SourceLocationV::Search(spec_search_scope(Some(rev))),
                shape: PayloadShape::PackageListJson,
                compressed: false,
            },
        ],
        None => seq![
            SourceDescriptorV {
                location: SourceLocationV::Url(spec_release_db_url(line)),
                shape: PayloadShape::RelationalDump,
                compressed: true,
            },
            SourceDescriptorV {
                location: SourceLocationV::Search(spec_search_scope(None)),
                shape: PayloadShape::PackageListJson,
                compressed: false,
            },
        ],
    }
}

/// Computes the ordered source chain for a version token and an optional
/// pinned revision. Fails exactly when the token names no release line.
pub fn resolve(token: &str, pinned: Option<&str>) -> (r: Result<Vec<SourceDescriptor>, EngineError>)
    ensures
        match r {
            Ok(v) => spec_release_line(token@) is Some && descriptors_view(v@) == spec_resolve(
                token@,
                match pinned {
                    Some(p) => Some(p@),
                    None => None,
                },
            ),
            Err(e) => e == EngineError::Probe && spec_release_line(token@) is None,
        },
{
    let line = match release_line(token) {
        Ok(l) => l,
        Err(e) => {
            return Err(e);
        },
    };
    let mut out: Vec<SourceDescriptor> = Vec::new();
    match pinned {
        Some(rev) => {
            out.push(
                SourceDescriptor {
                    location: SourceLocation::Url(rev_db_url(line.as_str(), rev)),
                    shape: PayloadShape::PackageListJson,
                    compressed: true,
                },
            );
            out.push(
                SourceDescriptor {
                    location: SourceLocation::Url(rev_db_url("unstable", rev)),
                    shape: PayloadShape::PackageListJson,
                    compressed: true,
                },
            );
            out.push(
                SourceDescriptor {
                    location: SourceLocation::Search(search_scope(Some(rev))),
                    shape: PayloadShape::PackageListJson,
                    compressed: false,
                },
            );
            proof {
                assert(descriptors_view(out@) =~= spec_resolve(token@, Some(rev@)));
            }
        },
        None => {
            out.push(
                SourceDescriptor {
                    location: SourceLocation::Url(release_db_url(line.as_str())),
                    shape: PayloadShape::RelationalDump,
                    compressed: true,
                },
            );
            out.push(
                SourceDescriptor {
                    location: SourceLocation::Search(search_scope(None)),
                    shape: PayloadShape::PackageListJson,
                    compressed: false,
                },
            );
            proof {
                assert(descriptors_view(out@) =~= spec_resolve(token@, None::<Seq<char>>));
            }
        },
    }
    Ok(out)
}

/// The single source for the rolling "latest" snapshot that profile
/// reconciliation uses, decided by the registry entry: a pin fetches the
/// per-revision list under the rolling line, a named reference its
/// versions dump, and with no entry the rolling line's versions dump.
pub open spec fn spec_latest_source(entry: RegistryEntry) -> SourceDescriptorV {
    match entry {
        RegistryEntry::Pinned { revision } => SourceDescriptorV {
            location: SourceLocationV::Url(spec_rev_db_url("unstable"@, revision@)),
            shape: PayloadShape::PackageListJson,
            compressed: true,
        },
        RegistryEntry::Reference { name } => SourceDescriptorV {
            location: SourceLocationV::Url(spec_versions_db_url(name@)),
            shape: PayloadShape::RelationalDump,
            compressed: true,
        },
        RegistryEntry::Absent => SourceDescriptorV {
            location: SourceLocationV::Url(spec_versions_db_url("nixpkgs-unstable"@)),
            shape: PayloadShape::RelationalDump,
            compressed: true,
        },
    }
}

/// Computes the source for the rolling "latest" snapshot.
pub fn latest_source(entry: &RegistryEntry) -> (r: SourceDescriptor)
    ensures
        r@ == spec_latest_source(*entry),
{
    match entry {
        RegistryEntry::Pinned { revision } => SourceDescriptor {
            location: SourceLocation::Url(rev_db_url("unstable", revision.as_str())),
            shape: PayloadShape::PackageListJson,
            compressed: true,
        },
        RegistryEntry::Reference { name } => SourceDescriptor {
            location: SourceLocation::Url(versions_db_url(name.as_str())),
            shape: PayloadShape::RelationalDump,
            compressed: true,
        },
        RegistryEntry::Absent => SourceDescriptor {
            location: SourceLocation::Url(versions_db_url("nixpkgs-unstable")),
            shape: PayloadShape::RelationalDump,
            compressed: true,
        },
    }
}

} // verus!
