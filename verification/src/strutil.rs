//! Verified string operations used throughout the engine: prefix tests,
//! substring search, splitting and joining on a separator character,
//! pattern replacement and whitespace trimming.
//!
//! Each executable function is specified against a small recursive spec
//! function over the string's view (a sequence of characters), so callers
//! can reason about the exact result.

use vstd::prelude::*;

verus! {

/// Relies on `String::push` of std: appends exactly the given character.
pub assume_specification[ String::push ](s: &mut String, c: char)
    ensures
        final(s)@ == old(s)@.push(c),
;

/// The ASCII whitespace characters that trimming removes.
pub open spec fn is_ascii_space(c: char) -> bool {
    c == ' ' || c == '\t' || c == '\n' || c == '\r'
}

/// `p` is a prefix of `s`.
pub open spec fn spec_starts_with(s: Seq<char>, p: Seq<char>) -> bool {
    p.len() <= s.len() && s.take(p.len() as int) == p
}

/// `pat` occurs in `s` at position `i`.
pub open spec fn match_at(s: Seq<char>, pat: Seq<char>, i: int) -> bool {
    0 <= i && i + pat.len() <= s.len() && s.subrange(i, i + pat.len()) == pat
}

/// The pieces of `s` between occurrences of the separator `c`.
/// Always at least one piece; a separator at either end or two adjacent
/// separators yield empty pieces, as the usual string split does.
pub open spec fn spec_split(s: Seq<char>, c: char) -> Seq<Seq<char>>
    decreases s.len(),
{
    if s.len() == 0 {
        seq![Seq::<char>::empty()]
    } else if s[0] == c {
        seq![Seq::<char>::empty()] + spec_split(s.skip(1), c)
    } else {
        let rest = spec_split(s.skip(1), c);
        seq![seq![s[0]] + rest[0]] + rest.skip(1)
    }
}

/// The pieces concatenated with the separator `c` between them.
pub open spec fn spec_join(ps: Seq<Seq<char>>, c: char) -> Seq<char>
    decreases ps.len(),
{
    if ps.len() == 0 {
        Seq::<char>::empty()
    } else if ps.len() == 1 {
        ps[0]
    } else {
        ps[0] + seq![c] + spec_join(ps.skip(1), c)
    }
}

/// `s` with every non-overlapping occurrence of `pat` replaced by `rep`,
/// scanning left to right. A search for the empty pattern replaces nothing.
pub open spec fn spec_replace(s: Seq<char>, pat: Seq<char>, rep: Seq<char>) -> Seq<char>
    decreases s.len(),
{
    if pat.len() == 0 || s.len() < pat.len() {
        s
    } else if s.take(pat.len() as int) == pat {
        rep + spec_replace(s.skip(pat.len() as int), pat, rep)
    } else {
        seq![s[0]] + spec_replace(s.skip(1), pat, rep)
    }
}

/// `s` without its leading ASCII whitespace.
pub open spec fn spec_trim_start(s: Seq<char>) -> Seq<char>
    decreases s.len(),
{
    if s.len() > 0 && is_ascii_space(s[0]) {
        spec_trim_start(s.skip(1))
    } else {
        s
    }
}

/// `s` without its trailing ASCII whitespace.
pub open spec fn spec_trim_end(s: Seq<char>) -> Seq<char>
    decreases s.len(),
{
    if s.len() > 0 && is_ascii_space(s[s.len() - 1]) {
        spec_trim_end(s.take(s.len() - 1))
    } else {
        s
    }
}

/// `s` without leading and trailing ASCII whitespace.
pub open spec fn spec_trim(s: Seq<char>) -> Seq<char> {
    spec_trim_end(spec_trim_start(s))
}

/// The position of the first occurrence of `pat` in `s`, if any.
pub open spec fn spec_find(s: Seq<char>, pat: Seq<char>) -> Option<int>
    decreases s.len(),
{
    if pat.len() > s.len() {
        None
    } else if s.take(pat.len() as int) == pat {
        Some(0)
    } else if s.len() == 0 {
        None
    } else {
        match spec_find(s.skip(1), pat) {
            Some(i) => Some(i + 1),
            None => None,
        }
    }
}

/// `spec_find` yields the least position at which the pattern occurs, and
/// nothing when it occurs nowhere.
pub proof fn lemma_spec_find(s: Seq<char>, pat: Seq<char>)
    ensures
        match spec_find(s, pat) {
            Some(i) => match_at(s, pat, i) && forall|j: int| 0 <= j < i ==> !match_at(s, pat, j),
            None => forall|j: int| !match_at(s, pat, j),
        },
    decreases s.len(),
{
    if pat.len() > s.len() {
    } else if s.take(pat.len() as int) == pat {
        assert(s.subrange(0, pat.len() as int) =~= s.take(pat.len() as int));
    } else {
        assert(s.subrange(0, pat.len() as int) =~= s.take(pat.len() as int));
        if s.len() == 0 {
        } else {
            lemma_spec_find(s.skip(1), pat);
            assert forall|j: int| 0 <= j implies (match_at(s.skip(1), pat, j) <==> match_at(
                s,
                pat,
                j + 1,
            )) by {
                if j + pat.len() <= s.skip(1).len() {
                    assert(s.skip(1).subrange(j, j + pat.len() as int) =~= s.subrange(
                        j + 1,
                        j + 1 + pat.len() as int,
                    ));
                }
            }
            match spec_find(s.skip(1), pat) {
                Some(i) => {
                    assert(match_at(s, pat, i + 1));
                    assert forall|j: int| 0 <= j < i + 1 implies !match_at(s, pat, j) by {
                        if j > 0 {
                            assert(!match_at(s.skip(1), pat, j - 1));
                        }
                    }
                },
                None => {
                    assert forall|j: int| !match_at(s, pat, j) by {
                        if j > 0 {
                            assert(!match_at(s.skip(1), pat, j - 1));
                        }
                    }
                },
            }
        }
    }
}

/// Splitting never yields an empty list of pieces.
pub proof fn lemma_split_len(s: Seq<char>, c: char)
    ensures
        spec_split(s, c).len() >= 1,
    decreases s.len(),
{
    if s.len() == 0 {
    } else if s[0] == c {
        lemma_split_len(s.skip(1), c);
    } else {
        lemma_split_len(s.skip(1), c);
    }
}

/// A string without the separator splits into the single piece that is
/// the string itself.
pub proof fn lemma_split_no_sep(s: Seq<char>, c: char)
    requires
        forall|j: int| 0 <= j < s.len() ==> s[j] != c,
    ensures
        spec_split(s, c) =~~= seq![s],
    decreases s.len(),
{
    if s.len() == 0 {
    } else {
        lemma_split_no_sep(s.skip(1), c);
        assert(seq![s[0]] + s.skip(1) =~= s);
    }
}

/// Splitting at the first separator: if the first `k` characters are not
/// the separator and the character at `k` is, the split is the prefix
/// before `k` followed by the split of what comes after `k`.
pub proof fn lemma_split_at_sep(s: Seq<char>, c: char, k: int)
    requires
        0 <= k < s.len(),
        s[k] == c,
        forall|j: int| 0 <= j < k ==> s[j] != c,
    ensures
        spec_split(s, c) =~~= seq![s.take(k)] + spec_split(s.skip(k + 1), c),
    decreases k,
{
    if k == 0 {
        assert(s.take(0) =~= Seq::<char>::empty());
    } else {
        let t = s.skip(1);
        assert(forall|j: int| 0 <= j < k - 1 ==> t[j] == s[j + 1] && t[j] != c);
        lemma_split_at_sep(t, c, k - 1);
        lemma_split_len(t.skip(k), c);
        assert(t.skip(k) =~= s.skip(k + 1));
        assert(seq![s[0]] + t.take(k - 1) =~= s.take(k));
    }
}

/// Splitting distributes over a separator standing between two strings.
pub proof fn lemma_split_sep_concat(x: Seq<char>, b: Seq<char>, c: char)
    ensures
        spec_split(x + seq![c] + b, c) =~~= spec_split(x, c) + spec_split(b, c),
    decreases x.len(),
{
    let s = x + seq![c] + b;
    if x.len() == 0 {
        assert(s =~= seq![c] + b);
        assert(s[0] == c);
        assert(s.skip(1) =~= b);
    } else if x[0] == c {
        lemma_split_sep_concat(x.skip(1), b, c);
        assert(s[0] == c);
        assert(s.skip(1) =~= x.skip(1) + seq![c] + b);
        assert(seq![Seq::<char>::empty()] + (spec_split(x.skip(1), c) + spec_split(b, c)) =~~= (
        seq![Seq::<char>::empty()] + spec_split(x.skip(1), c)) + spec_split(b, c));
    } else {
        lemma_split_sep_concat(x.skip(1), b, c);
        lemma_split_len(x.skip(1), c);
        lemma_split_len(b, c);
        assert(s[0] == x[0]);
        assert(s.skip(1) =~= x.skip(1) + seq![c] + b);
        let q = spec_split(x.skip(1), c);
        let r = spec_split(x.skip(1) + seq![c] + b, c);
        assert(r[0] == q[0]);
        assert(r.skip(1) =~~= q.skip(1) + spec_split(b, c));
        assert(seq![seq![x[0]] + q[0]] + (q.skip(1) + spec_split(b, c)) =~~= (seq![seq![x[0]]
            + q[0]] + q.skip(1)) + spec_split(b, c));
    }
}

/// Joining the pieces of a split restores the original string.
pub proof fn lemma_join_split(s: Seq<char>, c: char)
    ensures
        spec_join(spec_split(s, c), c) =~= s,
    decreases s.len(),
{
    if s.len() == 0 {
    } else if s[0] == c {
        lemma_join_split(s.skip(1), c);
        lemma_split_len(s.skip(1), c);
        let sp = seq![Seq::<char>::empty()] + spec_split(s.skip(1), c);
        assert(sp.skip(1) =~~= spec_split(s.skip(1), c));
        assert(seq![c] + s.skip(1) =~= s);
    } else {
        lemma_join_split(s.skip(1), c);
        lemma_split_len(s.skip(1), c);
        let rest = spec_split(s.skip(1), c);
        let sp = seq![seq![s[0]] + rest[0]] + rest.skip(1);
        if rest.len() == 1 {
            assert(sp.len() == 1);
            assert(spec_join(rest, c) == rest[0]);
            assert(seq![s[0]] + s.skip(1) =~= s);
        } else {
            assert(sp.skip(1) =~~= rest.skip(1));
            assert(spec_join(sp, c) == (seq![s[0]] + rest[0]) + seq![c] + spec_join(
                rest.skip(1),
                c,
            ));
            assert(spec_join(rest, c) == rest[0] + seq![c] + spec_join(rest.skip(1), c));
            assert((seq![s[0]] + rest[0]) + seq![c] + spec_join(rest.skip(1), c) =~= seq![s[0]]
                + (rest[0] + seq![c] + spec_join(rest.skip(1), c)));
            assert(seq![s[0]] + s.skip(1) =~= s);
        }
    }
}

/// Joining after appending one more piece appends a separator and the piece.
pub proof fn lemma_join_snoc(ps: Seq<Seq<char>>, q: Seq<char>, c: char)
    requires
        ps.len() >= 1,
    ensures
        spec_join(ps.push(q), c) =~= spec_join(ps, c) + seq![c] + q,
    decreases ps.len(),
{
    let e = ps.push(q);
    if ps.len() == 1 {
        assert(e.skip(1) =~~= seq![q]);
        assert(e[0] == ps[0]);
        assert(spec_join(e, c) == e[0] + seq![c] + spec_join(e.skip(1), c));
        assert(spec_join(e.skip(1), c) == q);
        assert(spec_join(ps, c) == ps[0]);
    } else {
        lemma_join_snoc(ps.skip(1), q, c);
        assert(e.skip(1) =~~= ps.skip(1).push(q));
        assert(e[0] == ps[0]);
        assert(spec_join(e, c) == e[0] + seq![c] + spec_join(e.skip(1), c));
        assert(spec_join(e.skip(1), c) == spec_join(ps.skip(1), c) + seq![c] + q);
        assert(spec_join(ps, c) == ps[0] + seq![c] + spec_join(ps.skip(1), c));
        assert((ps[0] + seq![c]) + (spec_join(ps.skip(1), c) + seq![c] + q) =~= ((ps[0] + seq![c]
            + spec_join(ps.skip(1), c)) + seq![c]) + q);
    }
}

/// True exactly when the character is one of the ASCII whitespace
/// characters that trimming removes.
pub fn is_space(c: char) -> (r: bool)
    ensures
        r == is_ascii_space(c),
{
    c == ' ' || c == '\t' || c == '\n' || c == '\r'
}

/// The two strings hold the same characters.
pub fn eq_str(a: &str, b: &str) -> (r: bool)
    ensures
        r == (a@ == b@),
{
    let alen = a.unicode_len();
    let blen = b.unicode_len();
    if alen != blen {
        return false;
    }
    let mut i: usize = 0;
    while i < alen
        invariant
            0 <= i <= alen,
            alen == a@.len(),
            alen == b@.len(),
            forall|j: int| 0 <= j < i ==> a@[j] == b@[j],
        decreases alen - i,
    {
        if a.get_char(i) != b.get_char(i) {
            return false;
        }
        i += 1;
    }
    proof {
        assert(a@ =~= b@);
    }
    true
}

/// `pat` occurs in `s` at position `i`.
pub fn match_at_exec(s: &str, pat: &str, i: usize) -> (r: bool)
    requires
        i + pat@.len() <= s@.len(),
    ensures
        r == match_at(s@, pat@, i as int),
{
    let slen = s.unicode_len();
    let plen = pat.unicode_len();
    let mut j: usize = 0;
    while j < plen
        invariant
            0 <= j <= plen,
            plen == pat@.len(),
            slen == s@.len(),
            i + plen <= s@.len(),
            forall|k: int| 0 <= k < j ==> s@[i + k] == pat@[k],
        decreases plen - j,
    {
        if s.get_char(i + j) != pat.get_char(j) {
            proof {
                assert(s@.subrange(i as int, i + pat@.len())[j as int] == s@[i + j]);
            }
            return false;
        }
        j += 1;
    }
    proof {
        assert(s@.subrange(i as int, i + pat@.len()) =~= pat@);
    }
    true
}

/// `p` is a prefix of `s`.
pub fn starts_with_str(s: &str, p: &str) -> (r: bool)
    ensures
        r == spec_starts_with(s@, p@),
{
    let slen = s.unicode_len();
    let plen = p.unicode_len();
    if plen > slen {
        return false;
    }
    let r = match_at_exec(s, p, 0);
    proof {
        assert(s@.subrange(0, p@.len() as int) == s@.take(p@.len() as int));
    }
    r
}

/// Strips the prefix `p` from `s`; yields the rest exactly when `p` is a
/// prefix of `s`.
pub fn strip_prefix_str(s: &str, p: &str) -> (r: Option<String>)
    ensures
        match r {
            Some(t) => spec_starts_with(s@, p@) && t@ == s@.skip(p@.len() as int),
            None => !spec_starts_with(s@, p@),
        },
{
    if starts_with_str(s, p) {
        let slen = s.unicode_len();
        let plen = p.unicode_len();
        let rest = s.substring_char(plen, slen);
        proof {
            assert(s@.subrange(p@.len() as int, s@.len() as int) =~= s@.skip(p@.len() as int));
        }
        Some(String::from_str(rest))
    } else {
        None
    }
}

/// The position of the first occurrence of `pat` in `s`, if any.
pub fn find_str(s: &str, pat: &str) -> (r: Option<usize>)
    ensures
        match r {
            Some(i) => match_at(s@, pat@, i as int) && forall|j: int|
                0 <= j < i ==> !match_at(s@, pat@, j),
            None => forall|j: int| !match_at(s@, pat@, j),
        },
{
    let slen = s.unicode_len();
    let plen = pat.unicode_len();
    if plen > slen {
        return None;
    }
    if plen == 0 {
        proof {
            assert(s@.subrange(0, 0) =~= pat@);
        }
        return Some(0);
    }
    let mut i: usize = 0;
    while i <= slen - plen
        invariant
            0 <= i <= slen - plen + 1,
            0 < plen <= slen,
            slen == s@.len(),
            plen == pat@.len(),
            forall|j: int| 0 <= j < i ==> !match_at(s@, pat@, j),
        decreases slen - i,
    {
        if match_at_exec(s, pat, i) {
            return Some(i);
        }
        i += 1;
    }
    None
}

/// Whether `s` contains the character `c`.
pub fn contains_char(s: &str, c: char) -> (r: bool)
    ensures
        r == s@.contains(c),
{
    let len = s.unicode_len();
    let mut i: usize = 0;
    while i < len
        invariant
            0 <= i <= len,
            len == s@.len(),
            forall|j: int| 0 <= j < i ==> s@[j] != c,
        decreases len - i,
    {
        if s.get_char(i) == c {
            return true;
        }
        i += 1;
    }
    proof {
        assert(forall|j: int| 0 <= j < s@.len() ==> s@[j] != c);
        if s@.contains(c) {
            let j = choose|j: int| 0 <= j < s@.len() && s@[j] == c;
            assert(s@[j] != c);
        }
    }
    false
}

/// Splits `s` into its pieces between occurrences of the separator `c`.
pub fn split_str(s: &str, c: char) -> (r: Vec<String>)
    ensures
        r.deep_view() == spec_split(s@, c),
{
    let len = s.unicode_len();
    let mut out: Vec<String> = Vec::new();
    let mut start: usize = 0;
    let mut i: usize = 0;
    proof {
        assert(out.deep_view() =~~= Seq::<Seq<char>>::empty());
        assert(s@.skip(0) =~= s@);
        assert(Seq::<Seq<char>>::empty() + spec_split(s@, c) =~~= spec_split(s@, c));
    }
    while i < len
        invariant
            0 <= start <= i <= len,
            len == s@.len(),
            forall|j: int| start <= j < i ==> s@[j] != c,
            spec_split(s@, c) == out.deep_view() + spec_split(s@.skip(start as int), c),
        decreases len - i,
    {
        if s.get_char(i) == c {
            let piece = String::from_str(s.substring_char(start, i));
            let ghost pre = out.deep_view();
            out.push(piece);
            proof {
                let t = s@.skip(start as int);
                assert(forall|j: int| 0 <= j < i - start ==> t[j] == s@[start + j] && t[j] != c);
                assert(t[i - start] == c);
                lemma_split_at_sep(t, c, i - start);
                assert(t.take(i - start) =~= s@.subrange(start as int, i as int));
                assert(t.skip(i - start + 1) =~= s@.skip(i + 1));
                assert(out.deep_view() =~~= pre + seq![piece@]);
                assert(pre + (seq![piece@] + spec_split(s@.skip(i + 1), c)) =~~= (pre + seq![
                    piece@,
                ]) + spec_split(s@.skip(i + 1), c));
            }
            start = i + 1;
        }
        i += 1;
    }
    let piece = String::from_str(s.substring_char(start, len));
    let ghost pre = out.deep_view();
    out.push(piece);
    proof {
        let t = s@.skip(start as int);
        assert(forall|j: int| 0 <= j < t.len() ==> t[j] == s@[start + j] && t[j] != c);
        lemma_split_no_sep(t, c);
        assert(t =~= s@.subrange(start as int, len as int));
        assert(out.deep_view() =~~= pre + seq![piece@]);
    }
    out
}

/// The last piece of `s` split on the separator `c`: everything after
/// the final occurrence of `c`, or all of `s` when it has none.
pub fn last_segment(s: &str, c: char) -> (r: String)
    ensures
        r@ == spec_split(s@, c).last(),
{
    let parts = split_str(s, c);
    proof {
        lemma_split_len(s@, c);
    }
    let idx = parts.len() - 1;
    parts[idx].clone()
}

/// Joins the pieces from index `from` on with the separator `c` between
/// them.
pub fn join_from(ps: &Vec<String>, from: usize, c: char) -> (r: String)
    requires
        from <= ps@.len(),
    ensures
        r@ == spec_join(ps.deep_view().skip(from as int), c),
{
    let len = ps.len();
    if from == len {
        proof {
            assert(ps.deep_view().skip(from as int) =~~= Seq::<Seq<char>>::empty());
        }
        return String::new();
    }
    let mut out: String = ps[from].clone();
    let mut i: usize = from + 1;
    proof {
        assert(ps.deep_view().skip(from as int).subrange(0, 1) =~~= seq![ps.deep_view()[from as int]]);
    }
    while i < len
        invariant
            from < i <= len,
            len == ps@.len(),
            out@ == spec_join(ps.deep_view().skip(from as int).subrange(0, i - from), c),
        decreases len - i,
    {
        out.push(c);
        out.append(ps[i].as_str());
        proof {
            let tail = ps.deep_view().skip(from as int);
            let prev = tail.subrange(0, i - from);
            lemma_join_snoc(prev, ps.deep_view()[i as int], c);
            assert(tail.subrange(0, i + 1 - from) =~~= prev.push(ps.deep_view()[i as int]));
        }
        i += 1;
    }
    proof {
        assert(ps.deep_view().skip(from as int).subrange(0, len - from) =~~= ps.deep_view().skip(
            from as int,
        ));
    }
    out
}

/// `s` with every occurrence of `pat` replaced by `rep`, scanning left to
/// right without overlap.
pub fn replace_all(s: &str, pat: &str, rep: &str) -> (r: String)
    ensures
        r@ == spec_replace(s@, pat@, rep@),
{
    let slen = s.unicode_len();
    let plen = pat.unicode_len();
    let mut out = String::new();
    if plen == 0 {
        return String::from_str(s);
    }
    let mut i: usize = 0;
    proof {
        assert(s@.skip(0) =~= s@);
        assert(Seq::<char>::empty() + spec_replace(s@, pat@, rep@) =~= spec_replace(
            s@,
            pat@,
            rep@,
        ));
    }
    while i < slen
        invariant
            0 <= i <= slen,
            slen == s@.len(),
            plen == pat@.len(),
            plen > 0,
            spec_replace(s@, pat@, rep@) == out@ + spec_replace(s@.skip(i as int), pat@, rep@),
        decreases slen - i,
    {
        let matched = if plen <= slen && i <= slen - plen {
            match_at_exec(s, pat, i)
        } else {
            false
        };
        proof {
            let t = s@.skip(i as int);
            if matched {
                assert(t.take(plen as int) =~= s@.subrange(i as int, i + plen));
                assert(t.skip(plen as int) =~= s@.skip(i + plen));
            } else {
                if t.len() >= plen {
                    assert(t.take(plen as int) =~= s@.subrange(i as int, i + plen));
                }
                assert(t.skip(1) =~= s@.skip(i + 1));
                assert(t[0] == s@[i as int]);
            }
        }
        if matched {
            out.append(rep);
            proof {
                assert(out@ + spec_replace(s@.skip(i + plen), pat@, rep@) =~= (out@.subrange(
                    0,
                    out@.len() - rep@.len(),
                ) + (rep@ + spec_replace(s@.skip(i + plen), pat@, rep@))));
            }
            i += plen;
        } else {
            let ch = s.get_char(i);
            out.push(ch);
            proof {
                assert(out@ + spec_replace(s@.skip(i + 1), pat@, rep@) =~= (out@.subrange(
                    0,
                    out@.len() - 1,
                ) + (seq![s@[i as int]] + spec_replace(s@.skip(i + 1), pat@, rep@))));
            }
            i += 1;
        }
    }
    proof {
        assert(s@.skip(slen as int) =~= Seq::<char>::empty());
        assert(out@ + Seq::<char>::empty() =~= out@);
    }
    out
}

/// Dropping leading whitespace: if the first `a` characters are whitespace
/// and the one at `a` (if any) is not, trimming the start skips exactly `a`
/// characters.
proof fn lemma_trim_start_skip(s: Seq<char>, a: int)
    requires
        0 <= a <= s.len(),
        forall|j: int| 0 <= j < a ==> is_ascii_space(s[j]),
        a < s.len() ==> !is_ascii_space(s[a]),
    ensures
        spec_trim_start(s) == s.skip(a),
    decreases a,
{
    if a == 0 {
        assert(s.skip(0) =~= s);
    } else {
        lemma_trim_start_skip(s.skip(1), a - 1);
        assert(s.skip(1).skip(a - 1) =~= s.skip(a));
    }
}

/// Dropping trailing whitespace: if everything from `b` on is whitespace
/// and the character before `b` (if any) is not, trimming the end keeps
/// exactly the first `b` characters.
proof fn lemma_trim_end_take(s: Seq<char>, b: int)
    requires
        0 <= b <= s.len(),
        forall|j: int| b <= j < s.len() ==> is_ascii_space(s[j]),
        b > 0 ==> !is_ascii_space(s[b - 1]),
    ensures
        spec_trim_end(s) == s.take(b),
    decreases s.len() - b,
{
    if b == s.len() {
        assert(s.take(b) =~= s);
    } else {
        lemma_trim_end_take(s.take(s.len() - 1), b);
        assert(s.take(s.len() - 1).take(b) =~= s.take(b));
    }
}

/// The index of the first character that is not ASCII whitespace, or the
/// length when the whole string is whitespace.
fn first_non_space(s: &str) -> (a: usize)
    ensures
        0 <= a <= s@.len(),
        forall|j: int| 0 <= j < a ==> is_ascii_space(s@[j]),
        a < s@.len() ==> !is_ascii_space(s@[a as int]),
{
    let len = s.unicode_len();
    let mut a: usize = 0;
    while a < len
        invariant
            0 <= a <= len,
            len == s@.len(),
            forall|j: int| 0 <= j < a ==> is_ascii_space(s@[j]),
        decreases len - a,
    {
        if !is_space(s.get_char(a)) {
            return a;
        }
        a += 1;
    }
    a
}

/// One past the index of the last character at or after `lo` that is not
/// ASCII whitespace, or `lo` when everything from `lo` on is whitespace.
fn scan_back_non_space(s: &str, lo: usize) -> (b: usize)
    requires
        lo <= s@.len(),
    ensures
        lo <= b <= s@.len(),
        forall|j: int| b <= j < s@.len() ==> is_ascii_space(s@[j]),
        b > lo ==> !is_ascii_space(s@[b - 1]),
{
    let len = s.unicode_len();
    let mut b: usize = len;
    while b > lo
        invariant
            lo <= b <= len,
            len == s@.len(),
            forall|j: int| b <= j < len ==> is_ascii_space(s@[j]),
        decreases b,
    {
        if !is_space(s.get_char(b - 1)) {
            return b;
        }
        b -= 1;
    }
    b
}

/// `s` without leading and trailing ASCII whitespace.
pub fn trim_str(s: &str) -> (r: String)
    ensures
        r@ == spec_trim(s@),
{
    let a = first_non_space(s);
    let b = scan_back_non_space(s, a);
    proof {
        lemma_trim_start_skip(s@, a as int);
        let t = s@.skip(a as int);
        assert(forall|j: int| b - a <= j < t.len() ==> t[j] == s@[a + j] && is_ascii_space(t[j]));
        if b > a {
            assert(t[b - a - 1] == s@[b - 1]);
        }
        lemma_trim_end_take(t, b - a);
        assert(s@.subrange(a as int, b as int) =~= t.take(b - a));
    }
    String::from_str(s.substring_char(a, b))
}

} // verus!
