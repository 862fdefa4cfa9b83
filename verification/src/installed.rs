//! The installed-set collector: normalizing what each of the three
//! enumeration strategies reports — declarative configuration files, the
//! profile manifest, and the legacy environment listing — into canonical
//! attribute paths.
//!
//! The configuration parser itself runs in the caller, outside the
//! library's no-panic core: it can abort on unusual attribute-set
//! inputs, so no contract here admits it. Each file's result arrives as
//! a plain value — the option's array, or nothing where the file was
//! unreadable or did not parse.

use vstd::prelude::*;
use crate::records::{spec_flake_attr, flake_attr_of, ShapeEntry, ShapeEntryV};
use crate::strutil::{eq_str, spec_starts_with, starts_with_str};

verus! {

/// The recognized namespace prefix of a declarative-config entry.
pub open spec fn pkgs_ns() -> Seq<char> {
    "pkgs."@
}

/// A declarative-config entry with the recognized namespace prefix
/// stripped.
pub open spec fn spec_strip_pkgs(s: Seq<char>) -> Seq<char> {
    if spec_starts_with(s, pkgs_ns()) {
        s.skip(pkgs_ns().len() as int)
    } else {
        s
    }
}

/// The set a string list denotes.
pub open spec fn set_of(vs: Seq<Seq<char>>) -> Set<Seq<char>>
    decreases vs.len(),
{
    if vs.len() == 0 {
        Set::empty()
    } else {
        set_of(vs.drop_last()).insert(vs.last())
    }
}

/// A list denotes the set of exactly its elements.
pub proof fn lemma_set_of_contains(vs: Seq<Seq<char>>, x: Seq<char>)
    ensures
        set_of(vs).contains(x) <==> vs.contains(x),
    decreases vs.len(),
{
    if vs.len() > 0 {
        lemma_set_of_contains(vs.drop_last(), x);
        if vs.contains(x) {
            let i = choose|i: int| 0 <= i < vs.len() && vs[i] == x;
            if i < vs.len() - 1 {
                assert(vs.drop_last()[i] == x);
            }
        }
        if vs.drop_last().contains(x) {
            let i = choose|i: int| 0 <= i < vs.drop_last().len() && vs.drop_last()[i] == x;
            assert(vs[i] == x);
        }
    }
}

/// The stripped entries of one file's array.
pub open spec fn stripped_set(vs: Seq<Seq<char>>) -> Set<Seq<char>>
    decreases vs.len(),
{
    if vs.len() == 0 {
        Set::empty()
    } else {
        stripped_set(vs.drop_last()).insert(spec_strip_pkgs(vs.last()))
    }
}

/// The views of the per-file parse results.
pub open spec fn parsed_view(ps: Seq<Option<Vec<String>>>) -> Seq<Option<Seq<Seq<char>>>> {
    Seq::new(
        ps.len(),
        |i: int|
            match ps[i] {
                Some(v) => Some(v.deep_view()),
                None => None,
            },
    )
}

/// The installed set the declarative configuration files denote: the
/// union over the files of their parsed package arrays, each entry with
/// the namespace prefix stripped. A file without an array — unreadable,
/// unparsable, or lacking the option — contributes nothing; a missing
/// data source is an empty set, not an error.
pub open spec fn spec_config_pkgs(parsed: Seq<Option<Seq<Seq<char>>>>) -> Set<Seq<char>>
    decreases parsed.len(),
{
    if parsed.len() == 0 {
        Set::empty()
    } else {
        spec_config_pkgs(parsed.drop_last()) + (match parsed.last() {
            Some(vs) => stripped_set(vs),
            None => Set::empty(),
        })
    }
}

/// Whether a string list holds the given string.
fn vec_contains_str(v: &Vec<String>, s: &str) -> (r: bool)
    ensures
        r == v.deep_view().contains(s@),
{
    let n = v.len();
    let mut i: usize = 0;
    while i < n
        invariant
            0 <= i <= n,
            n == v@.len(),
            forall|j: int| 0 <= j < i ==> v.deep_view()[j] != s@,
        decreases n - i,
    {
        if eq_str(v[i].as_str(), s) {
            proof {
                assert(v.deep_view()[i as int] == s@);
            }
            return true;
        }
        i += 1;
    }
    proof {
        if v.deep_view().contains(s@) {
            let j = choose|j: int| 0 <= j < v.deep_view().len() && v.deep_view()[j] == s@;
            assert(v.deep_view()[j] != s@);
        }
    }
    false
}

/// Strips the recognized namespace prefix from one entry.
fn strip_pkgs(s: &str) -> (r: String)
    ensures
        r@ == spec_strip_pkgs(s@),
{
    if starts_with_str(s, "pkgs.") {
        let len = s.unicode_len();
        let plen = "pkgs.".unicode_len();
        let rest = s.substring_char(plen, len);
        proof {
            assert(s@.subrange(pkgs_ns().len() as int, s@.len() as int) =~= s@.skip(
                pkgs_ns().len() as int,
            ));
        }
        String::from_str(rest)
    } else {
        String::from_str(s)
    }
}

/// Collects the declaratively installed packages from the per-file
/// results of the configuration parser: the union across files,
/// namespace prefix stripped, without duplicates.
pub fn collect_config_pkgs(parsed: &Vec<Option<Vec<String>>>) -> (r: Vec<String>)
    ensures
        set_of(r.deep_view()) == spec_config_pkgs(parsed_view(parsed@)),
        forall|i: int, j: int| 0 <= i < j < r@.len() ==> r.deep_view()[i] != r.deep_view()[j],
{
    let ghost cv = parsed_view(parsed@);
    let mut out: Vec<String> = Vec::new();
    let n = parsed.len();
    let mut i: usize = 0;
    proof {
        assert(out.deep_view() =~~= Seq::<Seq<char>>::empty());
        assert(set_of(out.deep_view()) =~= spec_config_pkgs(cv.take(0)));
    }
    while i < n
        invariant
            0 <= i <= n,
            n == parsed@.len(),
            cv == parsed_view(parsed@),
            cv.len() == n,
            set_of(out.deep_view()) == spec_config_pkgs(cv.take(i as int)),
            forall|a: int, b: int|
                0 <= a < b < out@.len() ==> out.deep_view()[a] != out.deep_view()[b],
        decreases n - i,
    {
        proof {
            assert(cv.take(i + 1).drop_last() =~~= cv.take(i as int));
            assert(cv.take(i + 1).last() == cv[i as int]);
        }
        match &parsed[i] {
            Some(vs) => {
                proof {
                    assert(cv[i as int] == Some(vs.deep_view()));
                }
                let ghost vv = vs.deep_view();
                let m = vs.len();
                let mut k: usize = 0;
                proof {
                    assert(vv.take(0) =~~= Seq::<Seq<char>>::empty());
                    assert(set_of(out.deep_view()) =~= spec_config_pkgs(cv.take(i as int))
                        + stripped_set(vv.take(0)));
                }
                while k < m
                    invariant
                        0 <= k <= m,
                        m == vs@.len(),
                        vv == vs.deep_view(),
                        set_of(out.deep_view()) == spec_config_pkgs(cv.take(i as int))
                            + stripped_set(vv.take(k as int)),
                        forall|a: int, b: int|
                            0 <= a < b < out@.len() ==> out.deep_view()[a] != out.deep_view()[b],
                    decreases m - k,
                {
                    let entry = strip_pkgs(vs[k].as_str());
                    proof {
                        assert(vv.take(k + 1).drop_last() =~~= vv.take(k as int));
                        assert(vv.take(k + 1).last() == vv[k as int]);
                    }
                    if vec_contains_str(&out, entry.as_str()) {
                        proof {
                            lemma_set_of_contains(out.deep_view(), entry@);
                            assert(set_of(out.deep_view()).insert(entry@) =~= set_of(
                                out.deep_view(),
                            ));
                            assert(spec_config_pkgs(cv.take(i as int)) + stripped_set(
                                vv.take(k + 1),
                            ) =~= (spec_config_pkgs(cv.take(i as int)) + stripped_set(
                                vv.take(k as int),
                            )).insert(entry@));
                        }
                    } else {
                        let ghost pre = out.deep_view();
                        out.push(entry);
                        proof {
                            assert(out.deep_view() =~~= pre.push(spec_strip_pkgs(vv[k as int])));
                            assert(out.deep_view().drop_last() =~~= pre);
                            assert(set_of(out.deep_view()) =~= set_of(pre).insert(
                                spec_strip_pkgs(vv[k as int]),
                            ));
                            assert(spec_config_pkgs(cv.take(i as int)) + stripped_set(
                                vv.take(k + 1),
                            ) =~= (spec_config_pkgs(cv.take(i as int)) + stripped_set(
                                vv.take(k as int),
                            )).insert(spec_strip_pkgs(vv[k as int])));
                            lemma_set_of_contains(pre, spec_strip_pkgs(vv[k as int]));
                        }
                    }
                    k += 1;
                }
                proof {
                    assert(vv.take(m as int) =~~= vv);
                }
            },
            None => {
                proof {
                    assert(spec_config_pkgs(cv.take(i + 1)) =~= spec_config_pkgs(cv.take(
                        i as int,
                    )));
                }
            },
        }
        i += 1;
    }
    proof {
        assert(cv.take(n as int) =~~= cv);
    }
    out
}

/// One element of the profile manifest, as plain values: the attribute
/// path and origin, when the manifest carries them, and the element's
/// store paths.
pub struct ProfileElem {
    pub attrpath: Option<String>,
    pub originalurl: Option<String>,
    pub storepaths: Vec<String>,
}

/// The view of a [`ProfileElem`].
pub struct ProfileElemV {
    pub attrpath: Option<Seq<char>>,
    pub originalurl: Option<Seq<char>>,
    pub storepaths: Seq<Seq<char>>,
}

impl View for ProfileElem {
    type V = ProfileElemV;

    open spec fn view(&self) -> ProfileElemV {
        ProfileElemV {
            attrpath: match self.attrpath {
                Some(s) => Some(s@),
                None => None,
            },
            originalurl: match self.originalurl {
                Some(s) => Some(s@),
                None => None,
            },
            storepaths: self.storepaths.deep_view(),
        }
    }
}

/// A package installed through the profile mechanism: the installed name
/// recovered from its first store path, and the origin it was installed
/// from.
pub struct ProfilePkg {
    pub name: String,
    pub originalurl: String,
}

/// The view of a [`ProfilePkg`].
pub struct ProfilePkgV {
    pub name: Seq<char>,
    pub originalurl: Seq<char>,
}

impl View for ProfilePkg {
    type V = ProfilePkgV;

    open spec fn view(&self) -> ProfilePkgV {
        ProfilePkgV { name: self.name@, originalurl: self.originalurl@ }
    }
}

/// The legacy namespace under which profile attribute paths are rewritten
/// by dropping the first two path segments.
pub open spec fn legacy_ns() -> Seq<char> {
    "legacyPackages"@
}

/// The number of characters of the store-hash prefix that is stripped
/// from a store path to recover the installed name.
pub open spec fn store_hash_len() -> int {
    44
}

/// The canonical attribute of a profile element: paths under the legacy
/// namespace lose their first two dotted segments; any other path is
/// qualified by its origin.
pub open spec fn spec_profile_attr(attrpath: Seq<char>, originalurl: Seq<char>) -> Option<
    Seq<char>,
> {
    if spec_starts_with(attrpath, legacy_ns()) {
        spec_flake_attr(attrpath)
    } else {
        Some(originalurl + seq!['#'] + attrpath)
    }
}

/// The installed name a store path encodes: the path without its
/// fixed-length store-hash prefix.
pub open spec fn spec_store_name(p: Seq<char>) -> Option<Seq<char>> {
    if p.len() >= store_hash_len() {
        Some(p.skip(store_hash_len()))
    } else {
        None
    }
}

/// What one manifest element contributes: its canonical attribute and
/// recovered name, or nothing when a needed part is missing or malformed.
/// A malformed element is skipped, never failing the whole batch.
pub open spec fn spec_profile_entry(e: ProfileElemV) -> Option<(Seq<char>, ProfilePkgV)> {
    match (e.attrpath, e.originalurl) {
        (Some(ap), Some(ou)) => {
            if e.storepaths.len() > 0 {
                match (spec_profile_attr(ap, ou), spec_store_name(e.storepaths[0])) {
                    (Some(attr), Some(name)) => Some(
                        (attr, ProfilePkgV { name: name, originalurl: ou }),
                    ),
                    _ => None,
                }
            } else {
                None
            }
        },
        _ => None,
    }
}

/// What a whole manifest contributes, element by element.
pub open spec fn spec_profile_entries(es: Seq<ProfileElemV>) -> Seq<(Seq<char>, ProfilePkgV)>
    decreases es.len(),
{
    if es.len() == 0 {
        Seq::empty()
    } else {
        let rest = spec_profile_entries(es.drop_last());
        match spec_profile_entry(es.last()) {
            Some(p) => rest.push(p),
            None => rest,
        }
    }
}

/// The views of the element list.
pub open spec fn elems_view(es: Seq<ProfileElem>) -> Seq<ProfileElemV> {
    Seq::new(es.len(), |i: int| es[i]@)
}

/// The views of the produced pairs.
pub open spec fn profile_pairs_view(ps: Seq<(String, ProfilePkg)>) -> Seq<(Seq<char>, ProfilePkgV)> {
    Seq::new(ps.len(), |i: int| (ps[i].0@, ps[i].1@))
}

/// Normalizes the profile manifest's elements: each element with an
/// attribute path and an origin yields its canonical attribute and the
/// installed name recovered from its first store path; malformed elements
/// are skipped.
pub fn profile_entries(elems: &Vec<ProfileElem>) -> (r: Vec<(String, ProfilePkg)>)
    ensures
        profile_pairs_view(r@) == spec_profile_entries(elems_view(elems@)),
{
    let ghost ev = elems_view(elems@);
    let mut out: Vec<(String, ProfilePkg)> = Vec::new();
    let n = elems.len();
    let mut i: usize = 0;
    proof {
        assert(ev.take(0) =~~= Seq::<ProfileElemV>::empty());
        assert(profile_pairs_view(out@) =~~= spec_profile_entries(ev.take(0)));
    }
    while i < n
        invariant
            0 <= i <= n,
            n == elems@.len(),
            ev == elems_view(elems@),
            profile_pairs_view(out@) == spec_profile_entries(ev.take(i as int)),
        decreases n - i,
    {
        proof {
            assert(ev.take(i + 1).drop_last() =~~= ev.take(i as int));
            assert(ev.take(i + 1).last() == ev[i as int]);
        }
        let e = &elems[i];
        match (&e.attrpath, &e.originalurl) {
            (Some(ap), Some(ou)) => {
                if e.storepaths.len() > 0 {
                    let attr_opt: Option<String> = if starts_with_str(
                        ap.as_str(),
                        "legacyPackages",
                    ) {
                        flake_attr_of(ap.as_str())
                    } else {
                        let mut a = ou.clone();
                        a.push('#');
                        a.append(ap.as_str());
                        proof {
                            assert(a@ =~= ou@ + seq!['#'] + ap@);
                        }
                        Some(a)
                    };
                    let sp = &e.storepaths[0];
                    let splen = sp.unicode_len();
                    let name_opt: Option<String> = if splen >= 44 {
                        let nm = String::from_str(sp.substring_char(44, splen));
                        proof {
                            assert(sp@.subrange(44, sp@.len() as int) =~= sp@.skip(44));
                            assert(e@.storepaths[0] == sp@);
                        }
                        Some(nm)
                    } else {
                        None
                    };
                    match (attr_opt, name_opt) {
                        (Some(attr), Some(name)) => {
                            let ghost pv = (
                                attr@,
                                ProfilePkgV { name: name@, originalurl: ou@ },
                            );
                            proof {
                                assert(spec_profile_entry(ev[i as int]) == Some(pv));
                            }
                            let ghost pre = profile_pairs_view(out@);
                            out.push((attr, ProfilePkg { name, originalurl: ou.clone() }));
                            proof {
                                assert(profile_pairs_view(out@) =~~= pre.push(pv));
                            }
                        },
                        _ => {},
                    }
                }
            },
            _ => {},
        }
        i += 1;
    }
    proof {
        assert(ev.take(n as int) =~~= ev);
    }
    out
}

/// The views of a name-to-version pair list.
pub open spec fn env_pairs_view(ps: Seq<(String, String)>) -> Seq<(Seq<char>, Seq<char>)> {
    Seq::new(ps.len(), |i: int| (ps[i].0@, ps[i].1@))
}

/// What the legacy environment listing denotes: each entry's package
/// name mapped to its version. The keys are names, not attribute paths —
/// a materially less precise result that callers must treat as such.
pub open spec fn spec_env_versions(es: Seq<ShapeEntryV>) -> Seq<(Seq<char>, Seq<char>)> {
    es.map(|i: int, e: ShapeEntryV| (e.pname, e.version))
}

/// The views of the environment entries.
pub open spec fn env_entries_view(es: Seq<ShapeEntry>) -> Seq<ShapeEntryV> {
    Seq::new(es.len(), |i: int| es[i]@)
}

/// Normalizes the legacy environment listing: one name-to-version pair
/// per entry.
pub fn env_versions(entries: &Vec<ShapeEntry>) -> (r: Vec<(String, String)>)
    ensures
        env_pairs_view(r@) == spec_env_versions(env_entries_view(entries@)),
{
    let ghost ev = env_entries_view(entries@);
    let mut out: Vec<(String, String)> = Vec::new();
    let n = entries.len();
    let mut i: usize = 0;
    proof {
        assert(env_pairs_view(out@) =~~= spec_env_versions(ev).take(0));
    }
    while i < n
        invariant
            0 <= i <= n,
            n == entries@.len(),
            ev == env_entries_view(entries@),
            env_pairs_view(out@) == spec_env_versions(ev).take(i as int),
        decreases n - i,
    {
        let e = &entries[i];
        let ghost pre = env_pairs_view(out@);
        out.push((e.pname.clone(), e.version.clone()));
        proof {
            assert(env_pairs_view(out@) =~~= pre.push(spec_env_versions(ev)[i as int]));
            assert(spec_env_versions(ev).take(i + 1) =~~= spec_env_versions(ev).take(i as int).push(
                spec_env_versions(ev)[i as int],
            ));
        }
        i += 1;
    }
    proof {
        assert(spec_env_versions(ev).take(n as int) =~~= spec_env_versions(ev));
    }
    out
}

} // verus!
