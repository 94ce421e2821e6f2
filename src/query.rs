//! Parsing the query string that a vote page carried: `&`-separated
//! `key=value` fragments with percent-encoded values.

use crate::query_map::{push_char, QueryMap};
use vstd::prelude::*;

verus! {

broadcast use vstd::string::axiom_spec_iter;

/// `s` cut at every `sep`, read left to right: the pieces between separators,
/// in order. A text without `sep` is one piece; the empty text is one empty piece.
pub open spec fn split_all(s: Seq<char>, sep: char) -> Seq<Seq<char>>
    decreases s.len(),
{
    if s.len() == 0 {
        seq![Seq::<char>::empty()]
    } else {
        let pieces = split_all(s.drop_last(), sep);
        if s.last() == sep {
            pieces.push(Seq::<char>::empty())
        } else {
            pieces.update(pieces.len() - 1, pieces.last().push(s.last()))
        }
    }
}

/// `s` cut at its first `sep` into the text before it and the text after it;
/// `None` when `s` holds no `sep`.
pub open spec fn split_first(s: Seq<char>, sep: char) -> Option<(Seq<char>, Seq<char>)>
    decreases s.len(),
{
    if s.len() == 0 {
        None
    } else {
        match split_first(s.drop_last(), sep) {
            Some(kv) => Some((kv.0, kv.1.push(s.last()))),
            None => if s.last() == sep {
                Some((s.drop_last(), Seq::<char>::empty()))
            } else {
                None
            },
        }
    }
}

/// The key/value pairs of a list of fragments, in order: each fragment that
/// holds an `=` gives the text before its first `=` and the text after it;
/// the others give nothing.
pub open spec fn pairs_of(frags: Seq<Seq<char>>) -> Seq<(Seq<char>, Seq<char>)>
    decreases frags.len(),
{
    if frags.len() == 0 {
        Seq::empty()
    } else {
        let ps = pairs_of(frags.drop_last());
        match split_first(frags.last(), '=') {
            Some(kv) => ps.push(kv),
            None => ps,
        }
    }
}

/// The raw key/value pairs of a query string, before any decoding.
pub open spec fn query_pairs(s: Seq<char>) -> Seq<(Seq<char>, Seq<char>)> {
    pairs_of(split_all(s, '&'))
}

/// The views of a list of string pairs.
pub open spec fn pair_views(v: Seq<(String, String)>) -> Seq<(Seq<char>, Seq<char>)> {
    v.map_values(|e: (String, String)| (e.0@, e.1@))
}

/// The views of a list of keys with their decoded values, if any.
pub open spec fn decoded_views(v: Seq<(String, Option<String>)>) -> Seq<(Seq<char>, Option<Seq<char>>)> {
    v.map_values(
        |e: (String, Option<String>)|
            (
                e.0@,
                match e.1 {
                    Some(d) => Some(d@),
                    None => None,
                },
            ),
    )
}

/// The mapping made from keys and decoded values in order: a key whose value
/// did not decode is left out, and a later key overrides an earlier equal one.
pub open spec fn collected(ps: Seq<(Seq<char>, Option<Seq<char>>)>) -> Map<Seq<char>, Seq<char>>
    decreases ps.len(),
{
    if ps.len() == 0 {
        Map::empty()
    } else {
        let m = collected(ps.drop_last());
        match ps.last().1 {
            Some(v) => m.insert(ps.last().0, v),
            None => m,
        }
    }
}

/// What percent-decoding `s` as UTF-8 gives; `None` where the decoded bytes
/// are not UTF-8.
pub uninterp spec fn percent_decoded(s: Seq<char>) -> Option<Seq<char>>;

/// Each raw pair with its value percent-decoded.
pub open spec fn decode_values(ps: Seq<(Seq<char>, Seq<char>)>) -> Seq<(Seq<char>, Option<Seq<char>>)> {
    ps.map_values(|p: (Seq<char>, Seq<char>)| (p.0, percent_decoded(p.1)))
}

/// The mapping that a query string denotes.
pub open spec fn query_map(s: Seq<char>) -> Map<Seq<char>, Seq<char>> {
    collected(decode_values(query_pairs(s)))
}

#[verifier::external_type_specification]
#[verifier::external_body]
pub struct ExFromUtf8Error(std::string::FromUtf8Error);

/// Relies on urlencoding::decode: `%XX` escapes become bytes, which must form
/// UTF-8; the outcome depends on the text alone.
#[verifier::external_body]
fn percent_decode(s: &str) -> (r: Result<String, std::string::FromUtf8Error>)
    ensures
        match r {
            Ok(v) => percent_decoded(s@) == Some(v@),
            Err(_) => percent_decoded(s@) is None,
        },
{
    urlencoding::decode(s).map(|v| v.into_owned())
}

proof fn lemma_split_all_nonempty(s: Seq<char>, sep: char)
    ensures
        split_all(s, sep).len() >= 1,
    decreases s.len(),
{
    if s.len() > 0 {
        lemma_split_all_nonempty(s.drop_last(), sep);
    }
}

/// The raw `key=value` pairs of a query string, in order; fragments without
/// `=` are skipped and nothing is decoded.
pub fn raw_pairs(s: &str) -> (r: Vec<(String, String)>)
    ensures
        pair_views(r@) == query_pairs(s@),
{
    let mut pairs: Vec<(String, String)> = Vec::new();
    let mut key = String::new();
    let mut value = String::new();
    let mut in_value: bool = false;
    for c in it: s.chars()
        invariant
            it.seq() == s@,
            split_all(s@.take(it.index() as int), '&').len() >= 1,
            pair_views(pairs@) == pairs_of(split_all(s@.take(it.index() as int), '&').drop_last()),
            in_value ==> split_first(split_all(s@.take(it.index() as int), '&').last(), '=') == Some(
                (key@, value@),
            ),
            !in_value ==> split_first(split_all(s@.take(it.index() as int), '&').last(), '=') is None,
            !in_value ==> value@ == Seq::<char>::empty(),
            !in_value ==> key@ == split_all(s@.take(it.index() as int), '&').last(),
    {
        let ghost p = s@.take(it.index() as int);
        let ghost frags = split_all(p, '&');
        let ghost cur = frags.last();
        proof {
            assert(s@.take(it.index() + 1) == p.push(c));
            assert(p.push(c).drop_last() =~= p);
            lemma_split_all_nonempty(p, '&');
        }
        if c == '&' {
            let ghost old_pairs = pairs@;
            if in_value {
                pairs.push((key, value));
                assert(pair_views(pairs@) =~= pair_views(old_pairs).push((key@, value@)));
            }
            assert(frags.push(Seq::<char>::empty()).drop_last() =~= frags);
            assert(split_all(p.push(c), '&') == frags.push(Seq::<char>::empty()));
            assert(split_first(Seq::<char>::empty(), '=') is None);
            key = String::new();
            value = String::new();
            in_value = false;
        } else {
            let ghost frags2 = frags.update(frags.len() - 1, cur.push(c));
            assert(frags2.drop_last() =~= frags.drop_last());
            assert(cur.push(c).drop_last() =~= cur);
            assert(split_all(p.push(c), '&') == frags2);
            assert(frags2.last() == cur.push(c));
            if in_value {
                push_char(&mut value, c);
            } else if c == '=' {
                in_value = true;
            } else {
                push_char(&mut key, c);
            }
        }
    }
    let ghost frags = split_all(s@, '&');
    proof {
        assert(s@.take(s@.len() as int) =~= s@);
        lemma_split_all_nonempty(s@, '&');
        assert(frags.drop_last().push(frags.last()) =~= frags);
    }
    if in_value {
        let ghost old_pairs = pairs@;
        pairs.push((key, value));
        assert(pair_views(pairs@) =~= pair_views(old_pairs).push((key@, value@)));
    }
    pairs
}

/// The mapping made from keys and their decoded values, taken in order: a key
/// whose value did not decode (`None`) is left out, and a later key overrides
/// an earlier equal one.
pub fn collect_decoded(pairs: &Vec<(String, Option<String>)>) -> (r: QueryMap)
    ensures
        r.wf(),
        r@ == collected(decoded_views(pairs@)),
{
    let ghost all = decoded_views(pairs@);
    let mut m = QueryMap::new();
    let mut i: usize = 0;
    assert(all.take(0) =~= Seq::<(Seq<char>, Option<Seq<char>>)>::empty());
    while i < pairs.len()
        invariant
            i <= pairs@.len(),
            all == decoded_views(pairs@),
            m.wf(),
            m@ == collected(all.take(i as int)),
        decreases pairs@.len() - i,
    {
        assert(all.take(i + 1).drop_last() =~= all.take(i as int));
        assert(all.take(i + 1).last() == all[i as int]);
        match &pairs[i].1 {
            Some(v) => {
                m.insert(pairs[i].0.clone(), v.clone());
            },
            None => {},
        }
        i = i + 1;
    }
    assert(all.take(i as int) =~= all);
    m
}

/// The mapping that a query string denotes: each `&`-separated fragment is cut
/// at its first `=`, its value percent-decoded, fragments without `=` or whose
/// value does not decode are dropped, and the last of equal keys wins.
pub fn parse_query(s: &str) -> (r: QueryMap)
    ensures
        r.wf(),
        r@ == query_map(s@),
{
    let raw = raw_pairs(s);
    let ghost want = decode_values(query_pairs(s@));
    let mut decoded: Vec<(String, Option<String>)> = Vec::new();
    let mut i: usize = 0;
    assert(decoded_views(decoded@) =~= want.take(0));
    while i < raw.len()
        invariant
            i <= raw@.len(),
            pair_views(raw@) == query_pairs(s@),
            want == decode_values(query_pairs(s@)),
            decoded_views(decoded@) == want.take(i as int),
            decoded@.len() == i,
            want.len() == raw@.len(),
        decreases raw@.len() - i,
    {
        let ghost before = decoded@;
        let value = match percent_decode(raw[i].1.as_str()) {
            Ok(d) => Some(d),
            Err(_) => None,
        };
        decoded.push((raw[i].0.clone(), value));
        proof {
            let ii = i as int;
            assert(pair_views(raw@)[ii] == (raw@[ii].0@, raw@[ii].1@));
            assert(decoded@ == before.push(decoded@[ii]));
            assert(decoded_views(decoded@)[ii] == want[ii]);
            assert forall|j: int| 0 <= j < ii implies decoded_views(decoded@)[j] == want[j] by {
                assert(decoded@[j] == before[j]);
                assert(decoded_views(before)[j] == want.take(ii)[j]);
            }
            assert(decoded_views(decoded@) =~= want.take(ii + 1));
        }
        i = i + 1;
    }
    assert(want.take(i as int) =~= want);
    collect_decoded(&decoded)
}

} // verus!
