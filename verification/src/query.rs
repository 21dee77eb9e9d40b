//! The query codec: `key=value&key=value` bodies, as the OAuth token
//! endpoints return them.
//!
//! The model splits the raw text on `&` into segments and each segment on
//! its first `=`.  A segment without `=` makes the whole body malformed: the
//! decoder reports that instead of guessing.  No percent-decoding is
//! performed; values are kept exactly as they appear on the wire.

use vstd::prelude::*;
use crate::error::Error;

verus! {

/// Index of the first occurrence of `sep` in `s`, or `-1` if absent.
pub open spec fn find_char(s: Seq<char>, sep: char) -> int
    decreases s.len(),
{
    if s.len() == 0 {
        -1
    } else if s[0] == sep {
        0
    } else {
        let r = find_char(s.subrange(1, s.len() as int), sep);
        if r == -1 {
            -1
        } else {
            r + 1
        }
    }
}

/// Splits `s` on `sep`, consuming the separators.  The empty string splits
/// into one empty segment, as `str::split` does.
pub open spec fn split_on(s: Seq<char>, sep: char) -> Seq<Seq<char>>
    decreases s.len(),
{
    if s.len() == 0 {
        seq![Seq::<char>::empty()]
    } else if s[0] == sep {
        seq![Seq::<char>::empty()] + split_on(s.subrange(1, s.len() as int), sep)
    } else {
        let r = split_on(s.subrange(1, s.len() as int), sep);
        seq![seq![s[0]] + r[0]] + r.subrange(1, r.len() as int)
    }
}

/// Whether a segment carries a `=` separator at all.
pub open spec fn segment_has_eq(seg: Seq<char>) -> bool {
    find_char(seg, '=') != -1
}

/// The `(key, value)` pair of a segment, split at its first `=`.
pub open spec fn segment_pair(seg: Seq<char>) -> (Seq<char>, Seq<char>) {
    let i = find_char(seg, '=');
    (seg.subrange(0, i), seg.subrange(i + 1, seg.len() as int))
}

/// A body decodes cleanly exactly when every `&`-separated segment has a `=`.
pub open spec fn query_well_formed(s: Seq<char>) -> bool {
    forall|i: int|
        0 <= i < split_on(s, '&').len() ==> segment_has_eq(#[trigger] split_on(s, '&')[i])
}

/// Each segment of a list as its `(key, value)` pair.
pub open spec fn segments_pairs(segs: Seq<Seq<char>>) -> Seq<(Seq<char>, Seq<char>)> {
    Seq::new(segs.len(), |i: int| segment_pair(segs[i]))
}

/// The decoded pairs of a well-formed body, in wire order.
pub open spec fn query_pairs(s: Seq<char>) -> Seq<(Seq<char>, Seq<char>)> {
    segments_pairs(split_on(s, '&'))
}

/// Last-write-wins lookup in a pair list: the value of the last pair whose
/// key is `key`, as a hash-map built by repeated insertion would hold it.
pub open spec fn lookup(pairs: Seq<(Seq<char>, Seq<char>)>, key: Seq<char>) -> Option<Seq<char>>
    decreases pairs.len(),
{
    if pairs.len() == 0 {
        None
    } else if pairs.last().0 == key {
        Some(pairs.last().1)
    } else {
        lookup(pairs.drop_last(), key)
    }
}

/// The view of a decoded pair vector: each `String` pair as its char
/// sequences.
pub open spec fn pairs_view(v: Seq<(String, String)>) -> Seq<(Seq<char>, Seq<char>)> {
    Seq::new(v.len(), |i: int| (v[i].0@, v[i].1@))
}

proof fn lemma_split_on_len(s: Seq<char>, sep: char)
    ensures
        split_on(s, sep).len() >= 1,
    decreases s.len(),
{
    if s.len() != 0 {
        lemma_split_on_len(s.subrange(1, s.len() as int), sep);
    }
}

proof fn lemma_split_on_no_sep(s: Seq<char>, sep: char)
    requires
        forall|k: int| 0 <= k < s.len() ==> s[k] != sep,
    ensures
        split_on(s, sep) == seq![s],
    decreases s.len(),
{
    if s.len() == 0 {
        assert(s =~= Seq::<char>::empty());
    } else {
        let tail = s.subrange(1, s.len() as int);
        lemma_split_on_no_sep(tail, sep);
        assert(seq![s[0]] + tail =~= s);
        assert(split_on(s, sep) =~= seq![s]);
    }
}

proof fn lemma_split_on_sep_at(s: Seq<char>, sep: char, i: int)
    requires
        0 <= i < s.len(),
        s[i] == sep,
        forall|k: int| 0 <= k < i ==> s[k] != sep,
    ensures
        split_on(s, sep) == seq![s.subrange(0, i)] + split_on(
            s.subrange(i + 1, s.len() as int),
            sep,
        ),
    decreases s.len(),
{
    if i == 0 {
        assert(s.subrange(0, 0) =~= Seq::<char>::empty());
        assert(split_on(s, sep) =~= seq![s.subrange(0, i)] + split_on(
            s.subrange(i + 1, s.len() as int),
            sep,
        ));
    } else {
        let tail = s.subrange(1, s.len() as int);
        assert(tail[i - 1] == sep);
        lemma_split_on_sep_at(tail, sep, i - 1);
        lemma_split_on_len(tail.subrange(i, tail.len() as int), sep);
        let r = split_on(tail, sep);
        assert(r[0] == tail.subrange(0, i - 1));
        assert(seq![s[0]] + tail.subrange(0, i - 1) =~= s.subrange(0, i));
        assert(tail.subrange(i, tail.len() as int) =~= s.subrange(i + 1, s.len() as int));
        assert(r.subrange(1, r.len() as int) == split_on(s.subrange(i + 1, s.len() as int), sep));
        assert(split_on(s, sep) =~= seq![s.subrange(0, i)] + split_on(
            s.subrange(i + 1, s.len() as int),
            sep,
        ));
    }
}

proof fn lemma_find_char_none(s: Seq<char>, sep: char)
    requires
        forall|k: int| 0 <= k < s.len() ==> s[k] != sep,
    ensures
        find_char(s, sep) == -1,
    decreases s.len(),
{
    if s.len() != 0 {
        lemma_find_char_none(s.subrange(1, s.len() as int), sep);
    }
}

proof fn lemma_find_char_at(s: Seq<char>, sep: char, i: int)
    requires
        0 <= i < s.len(),
        s[i] == sep,
        forall|k: int| 0 <= k < i ==> s[k] != sep,
    ensures
        find_char(s, sep) == i,
    decreases s.len(),
{
    if i > 0 {
        let tail = s.subrange(1, s.len() as int);
        assert(tail[i - 1] == sep);
        lemma_find_char_at(tail, sep, i - 1);
    }
}

/// One pair in wire form: `key=value`.
pub open spec fn encode_pair(p: (Seq<char>, Seq<char>)) -> Seq<char> {
    p.0 + seq!['='] + p.1
}

/// A pair list in wire form: `k1=v1&k2=v2&...`.
pub open spec fn encode_query(pairs: Seq<(Seq<char>, Seq<char>)>) -> Seq<char>
    decreases pairs.len(),
{
    if pairs.len() == 0 {
        Seq::empty()
    } else if pairs.len() == 1 {
        encode_pair(pairs[0])
    } else {
        encode_pair(pairs[0]) + seq!['&'] + encode_query(pairs.drop_first())
    }
}

proof fn lemma_decode_single_pair(p: (Seq<char>, Seq<char>))
    requires
        !p.0.contains('='),
    ensures
        segment_has_eq(encode_pair(p)),
        segment_pair(encode_pair(p)) == p,
{
    let seg = encode_pair(p);
    assert(seg[p.0.len() as int] == '=');
    assert forall|k: int| 0 <= k < p.0.len() implies seg[k] != '=' by {
        assert(seg[k] == p.0[k]);
        assert(p.0.contains(p.0[k]));
    }
    lemma_find_char_at(seg, '=', p.0.len() as int);
    assert(seg.subrange(0, p.0.len() as int) =~= p.0);
    assert(seg.subrange(p.0.len() as int + 1, seg.len() as int) =~= p.1);
}

/// Law: decoding inverts encoding.  For a nonempty list of pairs with
/// distinct keys, none of whose keys or values contains `&` or `=`, the
/// encoded body `k1=v1&k2=v2&...` is well formed and decodes to exactly the
/// original pairs — and therefore to the original mapping.
pub proof fn lemma_query_round_trip(pairs: Seq<(Seq<char>, Seq<char>)>)
    requires
        pairs.len() >= 1,
        forall|i: int| 0 <= i < pairs.len() ==> !(#[trigger] pairs[i]).0.contains('&')
            && !pairs[i].0.contains('=') && !pairs[i].1.contains('&') && !pairs[i].1.contains('='),
        forall|i: int, j: int| 0 <= i < j < pairs.len() ==> pairs[i].0 != pairs[j].0,
    ensures
        query_well_formed(encode_query(pairs)),
        query_pairs(encode_query(pairs)) == pairs,
    decreases pairs.len(),
{
    let s = encode_query(pairs);
    let p0 = pairs[0];
    let e0 = encode_pair(p0);
    assert forall|k: int| 0 <= k < e0.len() implies e0[k] != '&' by {
        if k < p0.0.len() {
            assert(e0[k] == p0.0[k]);
            assert(p0.0.contains(p0.0[k]));
        } else if k > p0.0.len() {
            assert(e0[k] == p0.1[k - p0.0.len() - 1]);
            assert(p0.1.contains(p0.1[k - p0.0.len() - 1]));
        }
    }
    lemma_decode_single_pair(p0);
    if pairs.len() == 1 {
        lemma_split_on_no_sep(s, '&');
        assert(query_pairs(s) =~= pairs);
    } else {
        let rest = pairs.drop_first();
        assert(s == e0 + seq!['&'] + encode_query(rest));
        assert(s[e0.len() as int] == '&');
        assert forall|k: int| 0 <= k < e0.len() implies s[k] != '&' by {
            assert(s[k] == e0[k]);
        }
        lemma_split_on_sep_at(s, '&', e0.len() as int);
        assert(s.subrange(0, e0.len() as int) =~= e0);
        assert(s.subrange(e0.len() as int + 1, s.len() as int) =~= encode_query(rest));
        assert(forall|i: int| 0 <= i < rest.len() ==> rest[i] == pairs[i + 1]);
        lemma_query_round_trip(rest);
        let segs = split_on(s, '&');
        let rsegs = split_on(encode_query(rest), '&');
        assert(segs == seq![e0] + rsegs);
        assert forall|i: int| 0 <= i < segs.len() implies segment_has_eq(#[trigger] segs[i]) by {
            if i == 0 {
                assert(segs[0] == e0);
            } else {
                assert(segs[i] == rsegs[i - 1]);
                assert(segment_has_eq(rsegs[i - 1]));
            }
        }
        assert forall|i: int| 0 <= i < segs.len() implies segments_pairs(segs)[i] == pairs[i] by {
            if i == 0 {
                assert(segs[0] == e0);
            } else {
                assert(segs[i] == rsegs[i - 1]);
                assert(segments_pairs(rsegs)[i - 1] == rest[i - 1]);
            }
        }
        assert(query_pairs(s) =~= pairs);
    }
}

/// Compares two string slices character by character.
pub(crate) fn str_eq(a: &str, b: &str) -> (r: bool)
    ensures
        r == (a@ == b@),
{
    let an: usize = a.unicode_len();
    let bn: usize = b.unicode_len();
    if an != bn {
        assert(a@ != b@);
        return false;
    }
    let mut i: usize = 0;
    while i < an
        invariant
            0 <= i <= an,
            an == a@.len(),
            an == b@.len(),
            forall|k: int| 0 <= k < i ==> a@[k] == b@[k],
        decreases an - i,
    {
        if a.get_char(i) != b.get_char(i) {
            return false;
        }
        i = i + 1;
    }
    assert(a@ =~= b@);
    true
}

/// Decodes a `key=value&key=value` body into its pairs, in wire order.
/// Fails with `MalformedResponse` exactly when some segment lacks `=`.
pub fn split_query(query: &str) -> (r: Result<Vec<(String, String)>, Error>)
    ensures
        match r {
            Ok(v) => query_well_formed(query@) && pairs_view(v@) == query_pairs(query@),
            Err(e) => !query_well_formed(query@) && e == Error::MalformedResponse,
        },
{
    let n: usize = query.unicode_len();
    let mut out: Vec<(String, String)> = Vec::new();
    let mut seg_start: usize = 0;
    let ghost mut done: Seq<Seq<char>> = Seq::empty();
    proof {
        assert(query@.subrange(0, n as int) =~= query@);
        assert(done + split_on(query@, '&') =~= split_on(query@, '&'));
    }
    loop
        invariant
            0 <= seg_start <= n,
            n == query@.len(),
            split_on(query@, '&') == done + split_on(
                query@.subrange(seg_start as int, n as int),
                '&',
            ),
            forall|k: int| 0 <= k < done.len() ==> segment_has_eq(#[trigger] done[k]),
            pairs_view(out@) == segments_pairs(done),
        decreases n - seg_start,
    {
        // Scan to the end of the current segment, noting the first `=`.
        let mut i: usize = seg_start;
        let mut eq: Option<usize> = None;
        loop
            invariant
                seg_start <= i <= n,
                n == query@.len(),
                forall|k: int| seg_start <= k < i ==> query@[k] != '&',
                match eq {
                    Some(e) => seg_start <= e < i && query@[e as int] == '=' && forall|k: int|
                        seg_start <= k < e ==> query@[k] != '=',
                    None => forall|k: int| seg_start <= k < i ==> query@[k] != '=',
                },
            ensures
                seg_start <= i <= n,
                i == n || query@[i as int] == '&',
                forall|k: int| seg_start <= k < i ==> query@[k] != '&',
                match eq {
                    Some(e) => seg_start <= e < i && query@[e as int] == '=' && forall|k: int|
                        seg_start <= k < e ==> query@[k] != '=',
                    None => forall|k: int| seg_start <= k < i ==> query@[k] != '=',
                },
            decreases n - i,
        {
            if i == n {
                break;
            }
            let c = query.get_char(i);
            if c == '&' {
                break;
            }
            if c == '=' && eq.is_none() {
                eq = Some(i);
            }
            i = i + 1;
        }
        let ghost suffix = query@.subrange(seg_start as int, n as int);
        let ghost seg = query@.subrange(seg_start as int, i as int);
        proof {
            if i < n {
                assert(suffix[i - seg_start] == '&');
                lemma_split_on_sep_at(suffix, '&', i - seg_start);
                assert(suffix.subrange(0, i - seg_start) =~= seg);
                assert(suffix.subrange(i - seg_start + 1, suffix.len() as int) =~= query@.subrange(
                    i + 1,
                    n as int,
                ));
                assert(split_on(suffix, '&') == seq![seg] + split_on(
                    query@.subrange(i + 1, n as int),
                    '&',
                ));
            } else {
                assert(suffix =~= seg);
                lemma_split_on_no_sep(suffix, '&');
            }
        }
        // Split the segment at its first `=`, or report the malformed body.
        match eq {
            None => {
                proof {
                    lemma_find_char_none(seg, '=');
                    assert(!segment_has_eq(seg));
                    assert(split_on(query@, '&')[done.len() as int] == seg);
                    assert(!query_well_formed(query@));
                }
                return Err(Error::MalformedResponse);
            },
            Some(e) => {
                proof {
                    assert(seg[e - seg_start] == '=');
                    lemma_find_char_at(seg, '=', e - seg_start);
                }
                let key = query.substring_char(seg_start, e).to_owned();
                let val = query.substring_char(e + 1, i).to_owned();
                let ghost prev_done = done;
                let ghost prev_out = out@;
                proof {
                    assert(seg.subrange(0, e - seg_start) =~= query@.subrange(
                        seg_start as int,
                        e as int,
                    ));
                    assert(seg.subrange(e - seg_start + 1, seg.len() as int) =~= query@.subrange(
                        e + 1,
                        i as int,
                    ));
                    assert(segment_pair(seg) == (key@, val@));
                }
                out.push((key, val));
                proof {
                    done = prev_done + seq![seg];
                    assert(out@ == prev_out.push((key, val)));
                    assert(pairs_view(prev_out).len() == segments_pairs(prev_done).len());
                    assert(prev_out.len() == prev_done.len());
                    assert forall|k: int| 0 <= k < done.len() implies pairs_view(out@)[k]
                        == segments_pairs(done)[k] by {
                        if k < prev_done.len() {
                            assert(pairs_view(prev_out)[k] == segments_pairs(prev_done)[k]);
                            assert(pairs_view(out@)[k] == pairs_view(prev_out)[k]);
                            assert(segments_pairs(done)[k] == segments_pairs(prev_done)[k]);
                        } else {
                            assert(out@[k] == (key, val));
                            assert(done[k] == seg);
                        }
                    }
                    assert(pairs_view(out@) =~= segments_pairs(done));
                }
            },
        }
        if i == n {
            proof {
                assert(split_on(query@, '&') =~= done);
                assert(query_well_formed(query@));
            }
            return Ok(out);
        }
        proof {
            assert(split_on(query@, '&') =~= done + split_on(
                query@.subrange(i + 1, n as int),
                '&',
            ));
        }
        seg_start = i + 1;
    }
}

} // verus!
