//! The reconciler: resolving the installed packages' versions against the
//! snapshot store, and reporting the packages that have become
//! unavailable — dead aliases, packages gone upstream, and packages
//! flagged broken or insecure.

use vstd::prelude::*;
use crate::payload::{map_of_pairs, pairs_view};
use crate::records::{PackageRecord, PackageRecordV};
use crate::store::StoreTable;
use crate::strutil::{spec_starts_with, spec_trim, strip_prefix_str, trim_str};

verus! {

/// The reason recorded for a package whose attribute the store no longer
/// holds.
pub open spec fn reason_not_found() -> Seq<char> {
    "package not found in newer version"@
}

/// The reason recorded for a package flagged broken.
pub open spec fn reason_broken() -> Seq<char> {
    "package is marked as broken"@
}

/// The reason recorded for a package flagged insecure.
pub open spec fn reason_insecure() -> Seq<char> {
    "package is marked as insecure"@
}

/// The versions the store resolves for a list of attributes: each
/// attribute the store holds maps to its version; a lookup miss is
/// omitted, never an error.
pub open spec fn spec_versions(m: Map<Seq<char>, PackageRecordV>, attrs: Seq<Seq<char>>) -> Map<
    Seq<char>,
    Seq<char>,
>
    decreases attrs.len(),
{
    if attrs.len() == 0 {
        Map::empty()
    } else {
        let rest = spec_versions(m, attrs.drop_last());
        if m.contains_key(attrs.last()) {
            rest.insert(attrs.last(), m[attrs.last()].version)
        } else {
            rest
        }
    }
}

/// Resolves the version of every installed attribute the store holds, by
/// point lookup; attributes the store lacks are omitted.
pub fn versions_of(store: &StoreTable, attrs: &Vec<String>) -> (r: Vec<(String, String)>)
    requires
        store.wf(),
    ensures
        map_of_pairs(pairs_view(r@)) == spec_versions(store.as_map(), attrs.deep_view()),
{
    let ghost av = attrs.deep_view();
    let ghost m = store.as_map();
    let mut out: Vec<(String, String)> = Vec::new();
    let n = attrs.len();
    let mut i: usize = 0;
    proof {
        assert(av.take(0) =~~= Seq::<Seq<char>>::empty());
        assert(map_of_pairs(pairs_view(out@)) =~= spec_versions(m, av.take(0)));
    }
    while i < n
        invariant
            0 <= i <= n,
            n == attrs@.len(),
            av == attrs.deep_view(),
            m == store.as_map(),
            store.wf(),
            map_of_pairs(pairs_view(out@)) == spec_versions(m, av.take(i as int)),
        decreases n - i,
    {
        proof {
            assert(av.take(i + 1).drop_last() =~~= av.take(i as int));
            assert(av.take(i + 1).last() == av[i as int]);
        }
        match store.lookup(attrs[i].as_str()) {
            Some(rec) => {
                let ghost pre = pairs_view(out@);
                out.push((attrs[i].clone(), rec.version.clone()));
                proof {
                    assert(pairs_view(out@) =~~= pre.push((av[i as int], m[av[i as int]].version)));
                    assert(pairs_view(out@).drop_last() =~~= pre);
                }
            },
            None => {},
        }
        i += 1;
    }
    proof {
        assert(av.take(n as int) =~~= av);
    }
    out
}

/// The version a profile-origin package resolves to: when the store holds
/// its attribute and the installed name starts with the stored package
/// name followed by a dash, the rest of the name — the prefix stripped
/// exactly once; anything else resolves to nothing and is omitted.
pub open spec fn spec_profile_version(
    m: Map<Seq<char>, PackageRecordV>,
    attr: Seq<char>,
    installed_name: Seq<char>,
) -> Option<Seq<char>> {
    if m.contains_key(attr) && spec_starts_with(installed_name, m[attr].pname + seq!['-']) {
        Some(installed_name.skip(m[attr].pname.len() as int + 1))
    } else {
        None
    }
}

/// Resolves the version of one profile-origin package from its attribute
/// and the installed name recovered from its store path. A lookup miss
/// or a prefix mismatch yields nothing, silently.
pub fn profile_version(store: &StoreTable, attr: &str, installed_name: &str) -> (r: Option<String>)
    requires
        store.wf(),
    ensures
        match r {
            Some(v) => spec_profile_version(store.as_map(), attr@, installed_name@) == Some(v@),
            None => spec_profile_version(store.as_map(), attr@, installed_name@) is None,
        },
{
    match store.lookup(attr) {
        Some(rec) => {
            let mut prefix = rec.pname.clone();
            prefix.push('-');
            proof {
                assert(prefix@ =~= store.as_map()[attr@].pname + seq!['-']);
            }
            match strip_prefix_str(installed_name, prefix.as_str()) {
                Some(rest) => {
                    proof {
                        assert(prefix@.len() == store.as_map()[attr@].pname.len() + 1);
                    }
                    Some(rest)
                },
                None => None,
            }
        },
        None => None,
    }
}

/// The view of an optional looked-up row.
pub open spec fn row_view(r: Option<&PackageRecord>) -> Option<PackageRecordV> {
    match r {
        Some(rec) => Some(rec@),
        None => None,
    }
}

/// The unavailability reason a store row carries: a missing row means the
/// package is gone upstream; a present row is reported broken before
/// insecure, and a row with neither flag (or no metadata at all) carries
/// no reason and is omitted from the report.
pub open spec fn spec_availability_reason(row: Option<PackageRecordV>) -> Option<Seq<char>> {
    match row {
        None => Some(reason_not_found()),
        Some(rec) => match rec.meta {
            Some(meta) => if meta.broken {
                Some(reason_broken())
            } else if meta.insecure {
                Some(reason_insecure())
            } else {
                None
            },
            None => None,
        },
    }
}

/// A package flagged both broken and insecure is reported with the broken
/// reason, never the insecure one: the broken flag is checked first.
pub proof fn lemma_broken_precedes_insecure(rec: PackageRecordV)
    requires
        rec.meta matches Some(meta) && meta.broken,
    ensures
        spec_availability_reason(Some(rec)) == Some(reason_broken()),
        spec_availability_reason(Some(rec)) != Some(reason_insecure()),
{
    reveal_strlit("package is marked as broken");
    reveal_strlit("package is marked as insecure");
    assert(reason_broken().len() != reason_insecure().len());
}

/// Decides the unavailability reason for one looked-up row.
pub fn availability_reason(row: Option<&PackageRecord>) -> (r: Option<String>)
    ensures
        match r {
            Some(t) => spec_availability_reason(row_view(row)) == Some(t@),
            None => spec_availability_reason(row_view(row)) is None,
        },
{
    match row {
        None => Some(String::from_str("package not found in newer version")),
        Some(rec) => match &rec.meta {
            Some(meta) => {
                if meta.broken {
                    Some(String::from_str("package is marked as broken"))
                } else if meta.insecure {
                    Some(String::from_str("package is marked as insecure"))
                } else {
                    None
                }
            },
            None => None,
        },
    }
}

/// The prefix the evaluator puts before its error text.
pub open spec fn error_prefix() -> Seq<char> {
    "error: "@
}

/// The reason a dead alias is recorded with: the evaluator's error text,
/// its fixed prefix stripped when present, trimmed. An attribute that is
/// no alias, or whose alias still evaluates, carries no reason.
pub open spec fn spec_alias_reason(is_alias: bool, eval_ok: bool, stderr: Seq<char>) -> Option<
    Seq<char>,
> {
    if is_alias && !eval_ok {
        Some(
            spec_trim(
                if spec_starts_with(stderr, error_prefix()) {
                    stderr.skip(error_prefix().len() as int)
                } else {
                    stderr
                },
            ),
        )
    } else {
        None
    }
}

/// Decides the reason for one alias probe: an installed attribute that is
/// an alias and whose evaluation exited non-zero is dead, and its cleaned
/// error text is the reason.
pub fn alias_reason(is_alias: bool, eval_ok: bool, stderr: &str) -> (r: Option<String>)
    ensures
        match r {
            Some(t) => spec_alias_reason(is_alias, eval_ok, stderr@) == Some(t@),
            None => spec_alias_reason(is_alias, eval_ok, stderr@) is None,
        },
{
    if is_alias && !eval_ok {
        match strip_prefix_str(stderr, "error: ") {
            Some(rest) => Some(trim_str(rest.as_str())),
            None => Some(trim_str(stderr)),
        }
    } else {
        None
    }
}

/// One installed attribute's alias probe, as plain values: whether the
/// attribute is an alias, whether evaluating it exited successfully, and
/// what the evaluator wrote to its error stream.
pub struct AliasProbe {
    pub attr: String,
    pub is_alias: bool,
    pub eval_ok: bool,
    pub stderr: String,
}

/// The view of an [`AliasProbe`].
pub struct AliasProbeV {
    pub attr: Seq<char>,
    pub is_alias: bool,
    pub eval_ok: bool,
    pub stderr: Seq<char>,
}

impl View for AliasProbe {
    type V = AliasProbeV;

    open spec fn view(&self) -> AliasProbeV {
        AliasProbeV {
            attr: self.attr@,
            is_alias: self.is_alias,
            eval_ok: self.eval_ok,
            stderr: self.stderr@,
        }
    }
}

/// The views of a probe list.
pub open spec fn probes_view(ps: Seq<AliasProbe>) -> Seq<AliasProbeV> {
    Seq::new(ps.len(), |i: int| ps[i]@)
}

/// The alias reasons a probe list contributes, keyed by attribute.
pub open spec fn spec_alias_map(ps: Seq<AliasProbeV>) -> Map<Seq<char>, Seq<char>>
    decreases ps.len(),
{
    if ps.len() == 0 {
        Map::empty()
    } else {
        let rest = spec_alias_map(ps.drop_last());
        match spec_alias_reason(ps.last().is_alias, ps.last().eval_ok, ps.last().stderr) {
            Some(t) => rest.insert(ps.last().attr, t),
            None => rest,
        }
    }
}

/// The report after the store pass: over `base`, each listed attribute's
/// store reason is recorded, overriding any alias reason it had.
pub open spec fn spec_store_reasons(
    m: Map<Seq<char>, PackageRecordV>,
    attrs: Seq<Seq<char>>,
    base: Map<Seq<char>, Seq<char>>,
) -> Map<Seq<char>, Seq<char>>
    decreases attrs.len(),
{
    if attrs.len() == 0 {
        base
    } else {
        let rest = spec_store_reasons(m, attrs.drop_last(), base);
        let row = if m.contains_key(attrs.last()) {
            Some(m[attrs.last()])
        } else {
            None
        };
        match spec_availability_reason(row) {
            Some(t) => rest.insert(attrs.last(), t),
            None => rest,
        }
    }
}

/// The whole unavailability report: the alias reasons, then the store
/// reasons for every probed attribute, the store pass overriding the
/// alias pass. The report is sparse: an attribute matching no condition
/// is absent.
pub open spec fn spec_unavailable(
    ps: Seq<AliasProbeV>,
    m: Map<Seq<char>, PackageRecordV>,
) -> Map<Seq<char>, Seq<char>> {
    spec_store_reasons(m, ps.map(|i: int, p: AliasProbeV| p.attr), spec_alias_map(ps))
}

/// Builds the unavailability report for the probed installed attributes
/// against the store: dead aliases first, then for every attribute the
/// store's verdict — absent, broken (before insecure), or insecure.
pub fn unavailability_report(probes: &Vec<AliasProbe>, store: &StoreTable) -> (r: Vec<
    (String, String),
>)
    requires
        store.wf(),
    ensures
        map_of_pairs(pairs_view(r@)) == spec_unavailable(probes_view(probes@), store.as_map()),
{
    let ghost pv = probes_view(probes@);
    let ghost m = store.as_map();
    let ghost attrs = pv.map(|i: int, p: AliasProbeV| p.attr);
    let mut out: Vec<(String, String)> = Vec::new();
    let n = probes.len();
    let mut i: usize = 0;
    proof {
        assert(pv.take(0) =~~= Seq::<AliasProbeV>::empty());
        assert(map_of_pairs(pairs_view(out@)) =~= spec_alias_map(pv.take(0)));
    }
    while i < n
        invariant
            0 <= i <= n,
            n == probes@.len(),
            pv == probes_view(probes@),
            m == store.as_map(),
            store.wf(),
            map_of_pairs(pairs_view(out@)) == spec_alias_map(pv.take(i as int)),
        decreases n - i,
    {
        proof {
            assert(pv.take(i + 1).drop_last() =~~= pv.take(i as int));
            assert(pv.take(i + 1).last() == pv[i as int]);
        }
        let p = &probes[i];
        match alias_reason(p.is_alias, p.eval_ok, p.stderr.as_str()) {
            Some(t) => {
                let ghost pre = pairs_view(out@);
                let ghost tv = t@;
                out.push((p.attr.clone(), t));
                proof {
                    assert(pairs_view(out@) =~~= pre.push((pv[i as int].attr, tv)));
                    assert(pairs_view(out@).drop_last() =~~= pre);
                }
            },
            None => {},
        }
        i += 1;
    }
    proof {
        assert(pv.take(n as int) =~~= pv);
        assert(attrs.take(0) =~~= Seq::<Seq<char>>::empty());
    }
    let mut k: usize = 0;
    while k < n
        invariant
            0 <= k <= n,
            n == probes@.len(),
            pv == probes_view(probes@),
            m == store.as_map(),
            store.wf(),
            attrs == pv.map(|i: int, p: AliasProbeV| p.attr),
            map_of_pairs(pairs_view(out@)) == spec_store_reasons(
                m,
                attrs.take(k as int),
                spec_alias_map(pv),
            ),
        decreases n - k,
    {
        proof {
            assert(attrs.take(k + 1).drop_last() =~~= attrs.take(k as int));
            assert(attrs.take(k + 1).last() == attrs[k as int]);
            assert(attrs[k as int] == pv[k as int].attr);
        }
        let p = &probes[k];
        let row = store.lookup(p.attr.as_str());
        match availability_reason(row) {
            Some(t) => {
                let ghost pre = pairs_view(out@);
                let ghost tv = t@;
                out.push((p.attr.clone(), t));
                proof {
                    assert(pairs_view(out@) =~~= pre.push((pv[k as int].attr, tv)));
                    assert(pairs_view(out@).drop_last() =~~= pre);
                }
            },
            None => {},
        }
        k += 1;
    }
    proof {
        assert(attrs.take(n as int) =~~= attrs);
    }
    out
}

} // verus!
