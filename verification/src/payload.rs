//! Decoding of fetched payloads: brotli-compressed transfers and the flat
//! JSON objects (attribute to version, and the version-reporter output)
//! that several sources serve.
//!
//! The two outside calls stand behind trusted wrappers; everything that
//! interprets their results is verified against the names given to those
//! results.

use vstd::prelude::*;
use crate::strutil::eq_str;

verus! {

/// The bytes that the brotli decoder yields for a given compressed input,
/// or nothing when the input is not a valid brotli stream. Decoding is a
/// function of the input bytes alone.
pub uninterp spec fn brotli_plain(compressed: Seq<u8>) -> Option<Seq<u8>>;

/// Relies on `brotli::Decompressor`: decompression reads only the given
/// bytes and its result is a function of them alone; an invalid stream
/// reports an error.
#[verifier::external_body]
pub fn brotli_decompress(data: &[u8]) -> (r: Option<Vec<u8>>)
    ensures
        match r {
            Some(v) => brotli_plain(data@) == Some(v@),
            None => brotli_plain(data@) is None,
        },
{
    let mut dec = brotli::Decompressor::new(data, 4096);
    let mut out = Vec::new();
    match std::io::Read::read_to_end(&mut dec, &mut out) {
        Ok(_) => Some(out),
        Err(_) => None,
    }
}

/// The key-value pairs of a JSON object whose values are all strings, or
/// nothing when the bytes are not such an object. Parsing is a function
/// of the input bytes alone; the pairs carry no meaningful order, so the
/// result is a map.
pub uninterp spec fn json_string_object(bytes: Seq<u8>) -> Option<Map<Seq<char>, Seq<char>>>;

/// The views of a list of owned string pairs.
pub open spec fn pairs_view(ps: Seq<(String, String)>) -> Seq<(Seq<char>, Seq<char>)> {
    ps.map(|i: int, p: (String, String)| (p.0@, p.1@))
}

/// The map an association list denotes, later entries overriding earlier
/// ones.
pub open spec fn map_of_pairs(ps: Seq<(Seq<char>, Seq<char>)>) -> Map<Seq<char>, Seq<char>>
    decreases ps.len(),
{
    if ps.len() == 0 {
        Map::empty()
    } else {
        map_of_pairs(ps.drop_last()).insert(ps.last().0, ps.last().1)
    }
}

/// Relies on `serde_json::from_slice` deserializing into a map from
/// `String` to `String`: it accepts exactly the JSON objects whose values
/// are all strings, with later duplicate keys overriding earlier ones, so
/// the returned pairs have distinct keys and denote the parsed object.
/// Their order carries no meaning.
#[verifier::external_body]
pub fn parse_string_object(data: &[u8]) -> (r: Option<Vec<(String, String)>>)
    ensures
        match r {
            Some(v) => {
                &&& json_string_object(data@) == Some(map_of_pairs(pairs_view(v@)))
                &&& forall|i: int, j: int|
                    0 <= i < j < v@.len() ==> v@[i].0@ != v@[j].0@
            },
            None => json_string_object(data@) is None,
        },
{
    match serde_json::from_slice::<std::collections::HashMap<String, String>>(data) {
        Ok(m) => Some(m.into_iter().collect()),
        Err(_) => None,
    }
}

/// The value an association list holds for `key`: the last pair with that
/// key wins, as in `map_of_pairs`.
pub fn assoc_get(pairs: &Vec<(String, String)>, key: &str) -> (r: Option<String>)
    ensures
        match r {
            Some(v) => map_of_pairs(pairs_view(pairs@)).contains_key(key@) && v@ == map_of_pairs(
                pairs_view(pairs@),
            )[key@],
            None => !map_of_pairs(pairs_view(pairs@)).contains_key(key@),
        },
{
    let ghost pv = pairs_view(pairs@);
    let mut i: usize = pairs.len();
    proof {
        assert(pv.take(pairs@.len() as int) =~= pv);
    }
    while i > 0
        invariant
            0 <= i <= pairs@.len(),
            pv == pairs_view(pairs@),
            pv.len() == pairs@.len(),
            map_of_pairs(pv).contains_key(key@) == map_of_pairs(pv.take(i as int)).contains_key(
                key@,
            ),
            map_of_pairs(pv).contains_key(key@) ==> map_of_pairs(pv)[key@] == map_of_pairs(
                pv.take(i as int),
            )[key@],
        decreases i,
    {
        proof {
            assert(pv.take(i as int).drop_last() =~= pv.take(i - 1));
            assert(pv.take(i as int).last() == pv[i - 1]);
            assert(pv[i - 1].0 == pairs@[i - 1].0@);
        }
        if eq_str(pairs[i - 1].0.as_str(), key) {
            let out = pairs[i - 1].1.clone();
            return Some(out);
        }
        i -= 1;
    }
    proof {
        assert(pv.take(0) =~= Seq::<(Seq<char>, Seq<char>)>::empty());
    }
    None
}

} // verus!
