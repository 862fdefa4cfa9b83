//! The database builder's data model: normalized package records, the
//! three upstream payload shapes, and the codecs between them.
//!
//! Every decoded snapshot becomes a list of [`PackageRecord`]s; encoding
//! turns a record list back into an upstream shape. Round trips through
//! any shape preserve the attribute-to-name-and-version mapping, which is
//! proved below.

use vstd::prelude::*;
use crate::payload::pairs_view;
use crate::strutil::{
    lemma_join_split, lemma_split_len, lemma_split_no_sep, lemma_split_sep_concat, spec_join,
    spec_split, split_str, join_from,
};

verus! {

/// A metadata field that is sometimes a single value and sometimes a list
/// of values upstream.
pub enum OneOrMany {
    One(String),
    Many(Vec<String>),
}

/// The view of a [`OneOrMany`].
pub enum OneOrManyV {
    One(Seq<char>),
    Many(Seq<Seq<char>>),
}

impl View for OneOrMany {
    type V = OneOrManyV;

    open spec fn view(&self) -> OneOrManyV {
        match self {
            OneOrMany::One(s) => OneOrManyV::One(s@),
            OneOrMany::Many(v) => OneOrManyV::Many(v.deep_view()),
        }
    }
}

/// The safety and description metadata the full upstream shape carries.
pub struct PkgMeta {
    pub broken: bool,
    pub insecure: bool,
    pub unsupported: bool,
    pub unfree: bool,
    pub description: Option<String>,
    pub longdescription: Option<String>,
    pub license: Option<OneOrMany>,
    pub platforms: Option<OneOrMany>,
    pub homepage: Option<OneOrMany>,
}

/// The view of a [`PkgMeta`].
pub struct PkgMetaV {
    pub broken: bool,
    pub insecure: bool,
    pub unsupported: bool,
    pub unfree: bool,
    pub description: Option<Seq<char>>,
    pub longdescription: Option<Seq<char>>,
    pub license: Option<OneOrManyV>,
    pub platforms: Option<OneOrManyV>,
    pub homepage: Option<OneOrManyV>,
}

/// The view of an optional owned string.
pub open spec fn view_opt_str(o: Option<String>) -> Option<Seq<char>> {
    match o {
        Some(s) => Some(s@),
        None => None,
    }
}

/// The view of an optional one-or-many field.
pub open spec fn view_opt_oom(o: Option<OneOrMany>) -> Option<OneOrManyV> {
    match o {
        Some(v) => Some(v@),
        None => None,
    }
}

impl View for PkgMeta {
    type V = PkgMetaV;

    open spec fn view(&self) -> PkgMetaV {
        PkgMetaV {
            broken: self.broken,
            insecure: self.insecure,
            unsupported: self.unsupported,
            unfree: self.unfree,
            description: view_opt_str(self.description),
            longdescription: view_opt_str(self.longdescription),
            license: view_opt_oom(self.license),
            platforms: view_opt_oom(self.platforms),
            homepage: view_opt_oom(self.homepage),
        }
    }
}

/// One normalized package row: the canonical attribute path, the package
/// name and version, and, when the snapshot carried them, the system and
/// the safety metadata.
pub struct PackageRecord {
    pub attribute: String,
    pub pname: String,
    pub version: String,
    pub system: Option<String>,
    pub meta: Option<PkgMeta>,
}

/// The view of a [`PackageRecord`].
pub struct PackageRecordV {
    pub attribute: Seq<char>,
    pub pname: Seq<char>,
    pub version: Seq<char>,
    pub system: Option<Seq<char>>,
    pub meta: Option<PkgMetaV>,
}

/// The view of an optional metadata block.
pub open spec fn view_opt_meta(o: Option<PkgMeta>) -> Option<PkgMetaV> {
    match o {
        Some(m) => Some(m@),
        None => None,
    }
}

impl View for PackageRecord {
    type V = PackageRecordV;

    open spec fn view(&self) -> PackageRecordV {
        PackageRecordV {
            attribute: self.attribute@,
            pname: self.pname@,
            version: self.version@,
            system: view_opt_str(self.system),
            meta: view_opt_meta(self.meta),
        }
    }
}

/// The views of a list of records.
pub open spec fn records_view(rs: Seq<PackageRecord>) -> Seq<PackageRecordV> {
    Seq::new(rs.len(), |i: int| rs[i]@)
}

/// The attribute-to-name-and-version pairs of a record list: what every
/// upstream shape must preserve.
pub open spec fn base_pairs(rs: Seq<PackageRecordV>) -> Seq<(Seq<char>, (Seq<char>, Seq<char>))> {
    rs.map(|i: int, r: PackageRecordV| (r.attribute, (r.pname, r.version)))
}

impl OneOrMany {
    /// An equal copy of the value.
    pub fn duplicate(&self) -> (r: OneOrMany)
        ensures
            r@ == self@,
    {
        match self {
            OneOrMany::One(s) => OneOrMany::One(s.clone()),
            OneOrMany::Many(v) => {
                let mut out: Vec<String> = Vec::new();
                let n = v.len();
                let mut i: usize = 0;
                proof {
                    assert(out.deep_view() =~~= v.deep_view().take(0));
                }
                while i < n
                    invariant
                        0 <= i <= n,
                        n == v@.len(),
                        out.deep_view() == v.deep_view().take(i as int),
                    decreases n - i,
                {
                    let ghost pre = out.deep_view();
                    out.push(v[i].clone());
                    proof {
                        assert(out.deep_view() =~~= pre.push(v.deep_view()[i as int]));
                        assert(v.deep_view().take(i + 1) =~~= v.deep_view().take(i as int).push(
                            v.deep_view()[i as int],
                        ));
                    }
                    i += 1;
                }
                proof {
                    assert(v.deep_view().take(n as int) =~~= v.deep_view());
                }
                OneOrMany::Many(out)
            },
        }
    }

    /// The field normalized to a single value: the value itself, or the
    /// first of the list, which an empty list does not have.
    pub fn first_value(&self) -> (r: Option<String>)
        ensures
            match self@ {
                OneOrManyV::One(s) => r matches Some(v) && v@ == s,
                OneOrManyV::Many(l) => {
                    if l.len() > 0 {
                        r matches Some(v) && v@ == l[0]
                    } else {
                        r is None
                    }
                },
            },
    {
        match self {
            OneOrMany::One(s) => Some(s.clone()),
            OneOrMany::Many(v) => {
                if v.len() > 0 {
                    Some(v[0].clone())
                } else {
                    None
                }
            },
        }
    }

    /// The field normalized to one string: the value itself, or the list
    /// joined with the separator.
    pub fn joined(&self, sep: char) -> (r: String)
        ensures
            match self@ {
                OneOrManyV::One(s) => r@ == s,
                OneOrManyV::Many(l) => r@ == spec_join(l, sep),
            },
    {
        match self {
            OneOrMany::One(s) => s.clone(),
            OneOrMany::Many(v) => {
                let out = join_from(v, 0, sep);
                proof {
                    assert(v.deep_view().skip(0) =~~= v.deep_view());
                }
                out
            },
        }
    }
}

/// An equal copy of an optional string.
fn dup_opt_str(o: &Option<String>) -> (r: Option<String>)
    ensures
        view_opt_str(r) == view_opt_str(*o),
{
    match o {
        Some(s) => Some(s.clone()),
        None => None,
    }
}

/// An equal copy of an optional one-or-many field.
fn dup_opt_oom(o: &Option<OneOrMany>) -> (r: Option<OneOrMany>)
    ensures
        view_opt_oom(r) == view_opt_oom(*o),
{
    match o {
        Some(v) => Some(v.duplicate()),
        None => None,
    }
}

impl PkgMeta {
    /// An equal copy of the metadata block.
    pub fn duplicate(&self) -> (r: PkgMeta)
        ensures
            r@ == self@,
    {
        PkgMeta {
            broken: self.broken,
            insecure: self.insecure,
            unsupported: self.unsupported,
            unfree: self.unfree,
            description: dup_opt_str(&self.description),
            longdescription: dup_opt_str(&self.longdescription),
            license: dup_opt_oom(&self.license),
            platforms: dup_opt_oom(&self.platforms),
            homepage: dup_opt_oom(&self.homepage),
        }
    }
}

/// An equal copy of an optional metadata block.
fn dup_opt_meta(o: &Option<PkgMeta>) -> (r: Option<PkgMeta>)
    ensures
        view_opt_meta(r) == view_opt_meta(*o),
{
    match o {
        Some(m) => Some(m.duplicate()),
        None => None,
    }
}

impl PackageRecord {
    /// An equal copy of the record.
    pub fn duplicate(&self) -> (r: PackageRecord)
        ensures
            r@ == self@,
    {
        PackageRecord {
            attribute: self.attribute.clone(),
            pname: self.pname.clone(),
            version: self.version.clone(),
            system: dup_opt_str(&self.system),
            meta: dup_opt_meta(&self.meta),
        }
    }
}

/// A name-and-version entry of the two metadata-free shapes.
pub struct ShapeEntry {
    pub pname: String,
    pub version: String,
}

/// The view of a [`ShapeEntry`].
pub struct ShapeEntryV {
    pub pname: Seq<char>,
    pub version: Seq<char>,
}

impl View for ShapeEntry {
    type V = ShapeEntryV;

    open spec fn view(&self) -> ShapeEntryV {
        ShapeEntryV { pname: self.pname@, version: self.version@ }
    }
}

/// The legacy channel shape: a flat map from attribute to name and
/// version, with no metadata.
pub struct LegacyShape {
    pub packages: Vec<(String, ShapeEntry)>,
}

/// The flake-search shape: a map from dotted search-result key to name
/// and version; the first two key segments are stripped to obtain the
/// attribute.
pub struct FlakeShape {
    pub results: Vec<(String, ShapeEntry)>,
}

/// A package entry of the full shape, the only one carrying metadata.
pub struct FullEntry {
    pub pname: String,
    pub version: String,
    pub system: Option<String>,
    pub meta: Option<PkgMeta>,
}

/// The view of a [`FullEntry`].
pub struct FullEntryV {
    pub pname: Seq<char>,
    pub version: Seq<char>,
    pub system: Option<Seq<char>>,
    pub meta: Option<PkgMetaV>,
}

impl View for FullEntry {
    type V = FullEntryV;

    open spec fn view(&self) -> FullEntryV {
        FullEntryV {
            pname: self.pname@,
            version: self.version@,
            system: view_opt_str(self.system),
            meta: view_opt_meta(self.meta),
        }
    }
}

/// The full shape: a map from attribute to name, version, system and
/// metadata.
pub struct FullShape {
    pub packages: Vec<(String, FullEntry)>,
}

/// The views of a keyed entry list.
pub open spec fn entries_view(es: Seq<(String, ShapeEntry)>) -> Seq<(Seq<char>, ShapeEntryV)> {
    Seq::new(es.len(), |i: int| (es[i].0@, es[i].1@))
}

/// The views of a keyed full-entry list.
pub open spec fn full_entries_view(es: Seq<(String, FullEntry)>) -> Seq<(Seq<char>, FullEntryV)> {
    Seq::new(es.len(), |i: int| (es[i].0@, es[i].1@))
}

/// What decoding the legacy shape yields: one metadata-free record per
/// entry, the key as the attribute.
pub open spec fn spec_decode_legacy(es: Seq<(Seq<char>, ShapeEntryV)>) -> Seq<PackageRecordV> {
    es.map(
        |i: int, e: (Seq<char>, ShapeEntryV)|
            PackageRecordV {
                attribute: e.0,
                pname: e.1.pname,
                version: e.1.version,
                system: None,
                meta: None,
            },
    )
}

/// What encoding into the legacy shape yields: the base fields of each
/// record, keyed by attribute.
pub open spec fn spec_encode_legacy(rs: Seq<PackageRecordV>) -> Seq<(Seq<char>, ShapeEntryV)> {
    rs.map(
        |i: int, r: PackageRecordV|
            (r.attribute, ShapeEntryV { pname: r.pname, version: r.version }),
    )
}

/// The two key segments a flake-search key carries before the attribute.
pub open spec fn flake_prefix() -> Seq<char> {
    "legacyPackages"@ + seq!['.'] + "x86_64-linux"@ + seq!['.']
}

/// The attribute a flake-search key denotes: the key without its first
/// two dotted segments, or nothing when the key has no two segments to
/// drop.
pub open spec fn spec_flake_attr(key: Seq<char>) -> Option<Seq<char>> {
    let parts = spec_split(key, '.');
    if parts.len() >= 2 {
        Some(spec_join(parts.skip(2), '.'))
    } else {
        None
    }
}

/// What decoding the flake-search shape yields: one metadata-free record
/// per entry whose key denotes an attribute; entries with malformed keys
/// are skipped, never failing the load.
pub open spec fn spec_decode_flake(es: Seq<(Seq<char>, ShapeEntryV)>) -> Seq<PackageRecordV>
    decreases es.len(),
{
    if es.len() == 0 {
        Seq::empty()
    } else {
        let rest = spec_decode_flake(es.drop_last());
        match spec_flake_attr(es.last().0) {
            Some(attr) => rest.push(
                PackageRecordV {
                    attribute: attr,
                    pname: es.last().1.pname,
                    version: es.last().1.version,
                    system: None,
                    meta: None,
                },
            ),
            None => rest,
        }
    }
}

/// What encoding into the flake-search shape yields: each record keyed by
/// the two well-known segments followed by its attribute.
pub open spec fn spec_encode_flake(rs: Seq<PackageRecordV>) -> Seq<(Seq<char>, ShapeEntryV)> {
    rs.map(
        |i: int, r: PackageRecordV|
            (flake_prefix() + r.attribute, ShapeEntryV { pname: r.pname, version: r.version }),
    )
}

/// What decoding the full shape yields: one record per entry, everything
/// kept.
pub open spec fn spec_decode_full(es: Seq<(Seq<char>, FullEntryV)>) -> Seq<PackageRecordV> {
    es.map(
        |i: int, e: (Seq<char>, FullEntryV)|
            PackageRecordV {
                attribute: e.0,
                pname: e.1.pname,
                version: e.1.version,
                system: e.1.system,
                meta: e.1.meta,
            },
    )
}

/// What encoding into the full shape yields: every field of each record,
/// keyed by attribute.
pub open spec fn spec_encode_full(rs: Seq<PackageRecordV>) -> Seq<(Seq<char>, FullEntryV)> {
    rs.map(
        |i: int, r: PackageRecordV|
            (
                r.attribute,
                FullEntryV { pname: r.pname, version: r.version, system: r.system, meta: r.meta },
            ),
    )
}

/// Decodes the legacy channel shape.
pub fn decode_legacy(shape: &LegacyShape) -> (r: Vec<PackageRecord>)
    ensures
        records_view(r@) == spec_decode_legacy(entries_view(shape.packages@)),
{
    let ghost ev = entries_view(shape.packages@);
    let mut out: Vec<PackageRecord> = Vec::new();
    let n = shape.packages.len();
    let mut i: usize = 0;
    proof {
        assert(records_view(out@) =~~= spec_decode_legacy(ev).take(0));
    }
    while i < n
        invariant
            0 <= i <= n,
            n == shape.packages@.len(),
            ev == entries_view(shape.packages@),
            records_view(out@) == spec_decode_legacy(ev).take(i as int),
        decreases n - i,
    {
        let p = &shape.packages[i];
        let rec = PackageRecord {
            attribute: p.0.clone(),
            pname: p.1.pname.clone(),
            version: p.1.version.clone(),
            system: None,
            meta: None,
        };
        let ghost pre = records_view(out@);
        out.push(rec);
        proof {
            assert(records_view(out@) =~~= pre.push(spec_decode_legacy(ev)[i as int]));
            assert(spec_decode_legacy(ev).take(i + 1) =~~= spec_decode_legacy(ev).take(
                i as int,
            ).push(spec_decode_legacy(ev)[i as int]));
        }
        i += 1;
    }
    proof {
        assert(spec_decode_legacy(ev).take(n as int) =~~= spec_decode_legacy(ev));
    }
    out
}

/// Encodes records into the legacy channel shape.
pub fn encode_legacy(records: &Vec<PackageRecord>) -> (r: LegacyShape)
    ensures
        entries_view(r.packages@) == spec_encode_legacy(records_view(records@)),
{
    let ghost rv = records_view(records@);
    let mut out: Vec<(String, ShapeEntry)> = Vec::new();
    let n = records.len();
    let mut i: usize = 0;
    proof {
        assert(entries_view(out@) =~~= spec_encode_legacy(rv).take(0));
    }
    while i < n
        invariant
            0 <= i <= n,
            n == records@.len(),
            rv == records_view(records@),
            entries_view(out@) == spec_encode_legacy(rv).take(i as int),
        decreases n - i,
    {
        let rec = &records[i];
        let entry = ShapeEntry { pname: rec.pname.clone(), version: rec.version.clone() };
        let ghost pre = entries_view(out@);
        out.push((rec.attribute.clone(), entry));
        proof {
            assert(entries_view(out@) =~~= pre.push(spec_encode_legacy(rv)[i as int]));
            assert(spec_encode_legacy(rv).take(i + 1) =~~= spec_encode_legacy(rv).take(
                i as int,
            ).push(spec_encode_legacy(rv)[i as int]));
        }
        i += 1;
    }
    proof {
        assert(spec_encode_legacy(rv).take(n as int) =~~= spec_encode_legacy(rv));
    }
    LegacyShape { packages: out }
}

/// The attribute a flake-search key denotes, by dropping its first two
/// dotted segments.
pub fn flake_attr_of(key: &str) -> (r: Option<String>)
    ensures
        match r {
            Some(a) => spec_flake_attr(key@) == Some(a@),
            None => spec_flake_attr(key@) is None,
        },
{
    let parts = split_str(key, '.');
    if parts.len() >= 2 {
        Some(join_from(&parts, 2, '.'))
    } else {
        None
    }
}

/// Decodes the flake-search shape, skipping entries whose key has no two
/// segments to strip.
pub fn decode_flake(shape: &FlakeShape) -> (r: Vec<PackageRecord>)
    ensures
        records_view(r@) == spec_decode_flake(entries_view(shape.results@)),
{
    let ghost ev = entries_view(shape.results@);
    let mut out: Vec<PackageRecord> = Vec::new();
    let n = shape.results.len();
    let mut i: usize = 0;
    proof {
        assert(ev.take(0) =~~= Seq::<(Seq<char>, ShapeEntryV)>::empty());
        assert(records_view(out@) =~~= Seq::<PackageRecordV>::empty());
    }
    while i < n
        invariant
            0 <= i <= n,
            n == shape.results@.len(),
            ev == entries_view(shape.results@),
            records_view(out@) == spec_decode_flake(ev.take(i as int)),
        decreases n - i,
    {
        let p = &shape.results[i];
        proof {
            assert(ev.take(i + 1).drop_last() =~~= ev.take(i as int));
            assert(ev.take(i + 1).last() == ev[i as int]);
        }
        match flake_attr_of(p.0.as_str()) {
            Some(attr) => {
                let rec = PackageRecord {
                    attribute: attr,
                    pname: p.1.pname.clone(),
                    version: p.1.version.clone(),
                    system: None,
                    meta: None,
                };
                let ghost pre = records_view(out@);
                out.push(rec);
                proof {
                    assert(records_view(out@) =~~= pre.push(
                        spec_decode_flake(ev.take(i + 1)).last(),
                    ));
                }
            },
            None => {},
        }
        i += 1;
    }
    proof {
        assert(ev.take(n as int) =~~= ev);
    }
    out
}

/// Encodes records into the flake-search shape.
pub fn encode_flake(records: &Vec<PackageRecord>) -> (r: FlakeShape)
    ensures
        entries_view(r.results@) == spec_encode_flake(records_view(records@)),
{
    let ghost rv = records_view(records@);
    let mut out: Vec<(String, ShapeEntry)> = Vec::new();
    let n = records.len();
    let mut i: usize = 0;
    proof {
        assert(entries_view(out@) =~~= spec_encode_flake(rv).take(0));
    }
    while i < n
        invariant
            0 <= i <= n,
            n == records@.len(),
            rv == records_view(records@),
            entries_view(out@) == spec_encode_flake(rv).take(i as int),
        decreases n - i,
    {
        let rec = &records[i];
        let mut key = String::from_str("legacyPackages");
        key.push('.');
        key.append("x86_64-linux");
        key.push('.');
        key.append(rec.attribute.as_str());
        proof {
            assert(key@ =~= flake_prefix() + rec.attribute@);
        }
        let entry = ShapeEntry { pname: rec.pname.clone(), version: rec.version.clone() };
        let ghost pre = entries_view(out@);
        out.push((key, entry));
        proof {
            assert(entries_view(out@) =~~= pre.push(spec_encode_flake(rv)[i as int]));
            assert(spec_encode_flake(rv).take(i + 1) =~~= spec_encode_flake(rv).take(i as int).push(
                spec_encode_flake(rv)[i as int],
            ));
        }
        i += 1;
    }
    proof {
        assert(spec_encode_flake(rv).take(n as int) =~~= spec_encode_flake(rv));
    }
    FlakeShape { results: out }
}

/// Decodes the full shape.
pub fn decode_full(shape: &FullShape) -> (r: Vec<PackageRecord>)
    ensures
        records_view(r@) == spec_decode_full(full_entries_view(shape.packages@)),
{
    let ghost ev = full_entries_view(shape.packages@);
    let mut out: Vec<PackageRecord> = Vec::new();
    let n = shape.packages.len();
    let mut i: usize = 0;
    proof {
        assert(records_view(out@) =~~= spec_decode_full(ev).take(0));
    }
    while i < n
        invariant
            0 <= i <= n,
            n == shape.packages@.len(),
            ev == full_entries_view(shape.packages@),
            records_view(out@) == spec_decode_full(ev).take(i as int),
        decreases n - i,
    {
        let p = &shape.packages[i];
        let rec = PackageRecord {
            attribute: p.0.clone(),
            pname: p.1.pname.clone(),
            version: p.1.version.clone(),
            system: dup_opt_str(&p.1.system),
            meta: dup_opt_meta(&p.1.meta),
        };
        let ghost pre = records_view(out@);
        out.push(rec);
        proof {
            assert(records_view(out@) =~~= pre.push(spec_decode_full(ev)[i as int]));
            assert(spec_decode_full(ev).take(i + 1) =~~= spec_decode_full(ev).take(i as int).push(
                spec_decode_full(ev)[i as int],
            ));
        }
        i += 1;
    }
    proof {
        assert(spec_decode_full(ev).take(n as int) =~~= spec_decode_full(ev));
    }
    out
}

/// Encodes records into the full shape.
pub fn encode_full(records: &Vec<PackageRecord>) -> (r: FullShape)
    ensures
        full_entries_view(r.packages@) == spec_encode_full(records_view(records@)),
{
    let ghost rv = records_view(records@);
    let mut out: Vec<(String, FullEntry)> = Vec::new();
    let n = records.len();
    let mut i: usize = 0;
    proof {
        assert(full_entries_view(out@) =~~= spec_encode_full(rv).take(0));
    }
    while i < n
        invariant
            0 <= i <= n,
            n == records@.len(),
            rv == records_view(records@),
            full_entries_view(out@) == spec_encode_full(rv).take(i as int),
        decreases n - i,
    {
        let rec = &records[i];
        let entry = FullEntry {
            pname: rec.pname.clone(),
            version: rec.version.clone(),
            system: dup_opt_str(&rec.system),
            meta: dup_opt_meta(&rec.meta),
        };
        let ghost pre = full_entries_view(out@);
        out.push((rec.attribute.clone(), entry));
        proof {
            assert(full_entries_view(out@) =~~= pre.push(spec_encode_full(rv)[i as int]));
            assert(spec_encode_full(rv).take(i + 1) =~~= spec_encode_full(rv).take(i as int).push(
                spec_encode_full(rv)[i as int],
            ));
        }
        i += 1;
    }
    proof {
        assert(spec_encode_full(rv).take(n as int) =~~= spec_encode_full(rv));
    }
    FullShape { packages: out }
}

/// What a flat attribute-to-version list denotes as records: one
/// metadata-free record per pair, the attribute doubling as the package
/// name, since such a list carries no separate name.
pub open spec fn spec_records_from_versions(ps: Seq<(Seq<char>, Seq<char>)>) -> Seq<
    PackageRecordV,
> {
    ps.map(
        |i: int, p: (Seq<char>, Seq<char>)|
            PackageRecordV {
                attribute: p.0,
                pname: p.0,
                version: p.1,
                system: None,
                meta: None,
            },
    )
}

/// Normalizes a flat attribute-to-version list, the shape the
/// per-revision package lists decode to, into records.
pub fn records_from_versions(pairs: &Vec<(String, String)>) -> (r: Vec<PackageRecord>)
    ensures
        records_view(r@) == spec_records_from_versions(pairs_view(pairs@)),
{
    let ghost pv = pairs_view(pairs@);
    let mut out: Vec<PackageRecord> = Vec::new();
    let n = pairs.len();
    let mut i: usize = 0;
    proof {
        assert(records_view(out@) =~~= spec_records_from_versions(pv).take(0));
    }
    while i < n
        invariant
            0 <= i <= n,
            n == pairs@.len(),
            pv == pairs_view(pairs@),
            records_view(out@) == spec_records_from_versions(pv).take(i as int),
        decreases n - i,
    {
        let p = &pairs[i];
        let rec = PackageRecord {
            attribute: p.0.clone(),
            pname: p.0.clone(),
            version: p.1.clone(),
            system: None,
            meta: None,
        };
        let ghost pre = records_view(out@);
        out.push(rec);
        proof {
            assert(records_view(out@) =~~= pre.push(spec_records_from_versions(pv)[i as int]));
            assert(spec_records_from_versions(pv).take(i + 1) =~~= spec_records_from_versions(
                pv,
            ).take(i as int).push(spec_records_from_versions(pv)[i as int]));
        }
        i += 1;
    }
    proof {
        assert(spec_records_from_versions(pv).take(n as int) =~~= spec_records_from_versions(pv));
    }
    out
}

/// The two well-known flake-key segments contain no separator, so a key
/// built from them splits back into them followed by the attribute's own
/// pieces.
proof fn lemma_flake_attr_prefix(attr: Seq<char>)
    ensures
        spec_flake_attr(flake_prefix() + attr) == Some(attr),
{
    reveal_strlit("legacyPackages");
    reveal_strlit("x86_64-linux");
    let seg0 = "legacyPackages"@;
    let seg1 = "x86_64-linux"@;
    assert(forall|j: int| 0 <= j < seg0.len() ==> seg0[j] != '.');
    assert(forall|j: int| 0 <= j < seg1.len() ==> seg1[j] != '.');
    lemma_split_no_sep(seg0, '.');
    lemma_split_no_sep(seg1, '.');
    let key = flake_prefix() + attr;
    assert(key =~= seg0 + seq!['.'] + (seg1 + seq!['.'] + attr));
    lemma_split_sep_concat(seg0, seg1 + seq!['.'] + attr, '.');
    lemma_split_sep_concat(seg1, attr, '.');
    let parts = spec_split(key, '.');
    assert(parts =~~= seq![seg0] + (seq![seg1] + spec_split(attr, '.')));
    lemma_split_len(attr, '.');
    assert(parts.len() >= 2);
    assert(parts.skip(2) =~~= spec_split(attr, '.'));
    lemma_join_split(attr, '.');
}

/// Round trip through the legacy shape: decoding what a record list
/// encodes to preserves every attribute, name and version, in order.
pub proof fn lemma_legacy_round_trip(rs: Seq<PackageRecordV>)
    ensures
        base_pairs(spec_decode_legacy(spec_encode_legacy(rs))) == base_pairs(rs),
{
    assert(base_pairs(spec_decode_legacy(spec_encode_legacy(rs))) =~= base_pairs(rs));
}

/// Round trip through the flake-search shape: decoding what a record list
/// encodes to preserves every attribute, name and version, in order.
pub proof fn lemma_flake_round_trip(rs: Seq<PackageRecordV>)
    ensures
        base_pairs(spec_decode_flake(spec_encode_flake(rs))) == base_pairs(rs),
    decreases rs.len(),
{
    let enc = spec_encode_flake(rs);
    if rs.len() == 0 {
        assert(base_pairs(spec_decode_flake(enc)) =~= base_pairs(rs));
    } else {
        lemma_flake_round_trip(rs.drop_last());
        assert(enc.drop_last() =~~= spec_encode_flake(rs.drop_last()));
        lemma_flake_attr_prefix(rs.last().attribute);
        assert(enc.last().0 == flake_prefix() + rs.last().attribute);
        let rest = spec_decode_flake(enc.drop_last());
        assert(spec_flake_attr(enc.last().0) == Some(rs.last().attribute));
        let rec = PackageRecordV {
            attribute: rs.last().attribute,
            pname: enc.last().1.pname,
            version: enc.last().1.version,
            system: None,
            meta: None,
        };
        assert(spec_decode_flake(enc) == rest.push(rec));
        assert(base_pairs(rest) == base_pairs(rs.drop_last()));
        assert(base_pairs(rest.push(rec)) =~= base_pairs(rest).push(
            (rec.attribute, (rec.pname, rec.version)),
        ));
        assert(base_pairs(rs) =~= base_pairs(rs.drop_last()).push(
            (rs.last().attribute, (rs.last().pname, rs.last().version)),
        ));
        assert(rec.pname == rs.last().pname);
        assert(rec.version == rs.last().version);
    }
}

/// Round trip through the full shape: decoding what a record list encodes
/// to restores the records exactly, metadata included, so single-valued
/// metadata fields keep their scalars and list-valued ones their
/// sequences.
pub proof fn lemma_full_round_trip(rs: Seq<PackageRecordV>)
    ensures
        spec_decode_full(spec_encode_full(rs)) == rs,
{
    assert(spec_decode_full(spec_encode_full(rs)) =~= rs);
}

/// Corollary for the metadata fields: a full-shape round trip leaves each
/// record's metadata untouched, so a single-valued field keeps its scalar
/// and a list-valued one keeps the sequence its normalization joins.
pub proof fn lemma_full_round_trip_meta(rs: Seq<PackageRecordV>, i: int)
    requires
        0 <= i < rs.len(),
    ensures
        spec_decode_full(spec_encode_full(rs))[i].meta == rs[i].meta,
{
    lemma_full_round_trip(rs);
}

} // verus!
