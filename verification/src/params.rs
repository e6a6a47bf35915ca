//! The canonical parameter string of a request: every key and value
//! percent-encoded, the pairs sorted by encoded key and then by encoded
//! value, and written as `key=value` joined by `&`.

use vstd::prelude::*;
use vstd::utf8::*;
use vstd::relations::{sorted_by, total_ordering};
use vstd::seq_lib::{lemma_sorted_unique, group_to_multiset_ensures};
use crate::percent::{lemma_percent_encoded_ascii, percent_encode_bytes, percent_encoded};
use crate::text::{append_bytes, is_ascii_bytes, lemma_ascii_concat, text_from_ascii, ascii_text};

verus! {

/// A parameter as bytes: key and value.
pub type Pair = (Seq<u8>, Seq<u8>);

/// Lexicographic order on byte strings: a proper prefix comes first, and
/// otherwise the first byte that differs decides.
pub open spec fn bytes_le(a: Seq<u8>, b: Seq<u8>) -> bool
    decreases a.len(),
{
    if a.len() == 0 {
        true
    } else if b.len() == 0 {
        false
    } else if a[0] != b[0] {
        a[0] < b[0]
    } else {
        bytes_le(a.skip(1), b.skip(1))
    }
}

/// The order of parameters: by key, and by value where the keys are equal.
pub open spec fn pair_le(p: Pair, q: Pair) -> bool {
    if p.0 == q.0 {
        bytes_le(p.1, q.1)
    } else {
        bytes_le(p.0, q.0)
    }
}

/// `pair_le` as a relation.
pub open spec fn pair_order() -> spec_fn(Pair, Pair) -> bool {
    |p: Pair, q: Pair| pair_le(p, q)
}

/// A parameter with its key and its value percent-encoded.
pub open spec fn encoded_pair(p: Pair) -> Pair {
    (percent_encoded(p.0), percent_encoded(p.1))
}

/// The parameters, each percent-encoded, in the order given.
pub open spec fn encoded_pairs(params: Seq<Pair>) -> Seq<Pair> {
    params.map_values(|p: Pair| encoded_pair(p))
}

/// The encoded parameters in canonical order.
pub open spec fn canonical_pairs(params: Seq<Pair>) -> Seq<Pair> {
    encoded_pairs(params).sort_by(pair_order())
}

/// One pair written as `key=value`.
pub open spec fn pair_text(p: Pair) -> Seq<u8> {
    p.0 + seq![0x3du8] + p.1
}

/// The pairs written as `key=value` and joined by `&`.
pub open spec fn joined_pairs(pairs: Seq<Pair>) -> Seq<u8>
    decreases pairs.len(),
{
    if pairs.len() == 0 {
        Seq::empty()
    } else if pairs.len() == 1 {
        pair_text(pairs[0])
    } else {
        joined_pairs(pairs.drop_last()) + seq![0x26u8] + pair_text(pairs.last())
    }
}

/// The canonical parameter string.
pub open spec fn parameter_text(params: Seq<Pair>) -> Seq<u8> {
    joined_pairs(canonical_pairs(params))
}

/// The parameters of a request as bytes: the UTF-8 encoding of each key and
/// value.
pub open spec fn param_bytes(params: Seq<(String, String)>) -> Seq<Pair> {
    params.map_values(|p: (String, String)| (encode_utf8(p.0@), encode_utf8(p.1@)))
}

/// What a vector of byte pairs holds.
pub open spec fn pairs_view(pairs: Seq<(Vec<u8>, Vec<u8>)>) -> Seq<Pair> {
    pairs.map_values(|p: (Vec<u8>, Vec<u8>)| (p.0@, p.1@))
}

/// Every byte string is at most itself.
pub proof fn lemma_bytes_le_reflexive(a: Seq<u8>)
    ensures
        bytes_le(a, a),
    decreases a.len(),
{
    if a.len() > 0 {
        lemma_bytes_le_reflexive(a.skip(1));
    }
}

/// Two byte strings that are each at most the other are equal.
pub proof fn lemma_bytes_le_antisymmetric(a: Seq<u8>, b: Seq<u8>)
    requires
        bytes_le(a, b),
        bytes_le(b, a),
    ensures
        a == b,
    decreases a.len(),
{
    if a.len() > 0 {
        lemma_bytes_le_antisymmetric(a.skip(1), b.skip(1));
        assert(a =~= seq![a[0]] + a.skip(1));
        assert(b =~= seq![b[0]] + b.skip(1));
    }
    assert(a =~= b);
}

/// The order of byte strings is transitive.
pub proof fn lemma_bytes_le_transitive(a: Seq<u8>, b: Seq<u8>, c: Seq<u8>)
    requires
        bytes_le(a, b),
        bytes_le(b, c),
    ensures
        bytes_le(a, c),
    decreases a.len(),
{
    if a.len() > 0 && a[0] == b[0] && b[0] == c[0] {
        lemma_bytes_le_transitive(a.skip(1), b.skip(1), c.skip(1));
    }
}

/// Of two byte strings one is at most the other.
pub proof fn lemma_bytes_le_connected(a: Seq<u8>, b: Seq<u8>)
    ensures
        bytes_le(a, b) || bytes_le(b, a),
    decreases a.len(),
{
    if a.len() > 0 && b.len() > 0 && a[0] == b[0] {
        lemma_bytes_le_connected(a.skip(1), b.skip(1));
    }
}

/// The order of parameters is a total order.
pub proof fn lemma_pair_order_total()
    ensures
        total_ordering(pair_order()),
{
    let r = pair_order();
    assert forall|p: Pair| #[trigger] r(p, p) by {
        lemma_bytes_le_reflexive(p.1);
    }
    assert forall|p: Pair, q: Pair| #[trigger] r(p, q) && #[trigger] r(q, p) implies p == q by {
        if p.0 == q.0 {
            lemma_bytes_le_antisymmetric(p.1, q.1);
        } else {
            lemma_bytes_le_antisymmetric(p.0, q.0);
        }
    }
    assert forall|p: Pair, q: Pair, s: Pair| #[trigger] r(p, q) && #[trigger] r(q, s) implies r(
        p,
        s,
    ) by {
        if p.0 == q.0 && q.0 == s.0 {
            lemma_bytes_le_transitive(p.1, q.1, s.1);
        } else if p.0 == q.0 || q.0 == s.0 {
        } else {
            lemma_bytes_le_transitive(p.0, q.0, s.0);
            if p.0 == s.0 {
                lemma_bytes_le_antisymmetric(p.0, q.0);
            }
        }
    }
    assert forall|p: Pair, q: Pair| #[trigger] r(p, q) || #[trigger] r(q, p) by {
        lemma_bytes_le_connected(p.0, q.0);
        lemma_bytes_le_connected(p.1, q.1);
    }
}

/// A sorted arrangement of the encoded parameters is the canonical one.
pub proof fn lemma_sorted_is_canonical(params: Seq<Pair>, arranged: Seq<Pair>)
    requires
        sorted_by(arranged, pair_order()),
        arranged.to_multiset() == encoded_pairs(params).to_multiset(),
    ensures
        arranged == canonical_pairs(params),
{
    lemma_pair_order_total();
    encoded_pairs(params).lemma_sort_by_ensures(pair_order());
    lemma_sorted_unique(arranged, canonical_pairs(params), pair_order());
}

/// Encoding each element keeps two rearrangements of one another
/// rearrangements of one another.
pub proof fn lemma_encoded_pairs_rearranged(a: Seq<Pair>, b: Seq<Pair>)
    requires
        a.to_multiset() == b.to_multiset(),
    ensures
        encoded_pairs(a).to_multiset() == encoded_pairs(b).to_multiset(),
    decreases a.len(),
{
    broadcast use group_to_multiset_ensures;

    if a.len() == 0 {
        assert(a.to_multiset().len() == 0);
        assert(b.to_multiset().len() == b.len());
        assert(b.len() == 0);
        assert(encoded_pairs(a) =~= encoded_pairs(b));
    } else {
        let x = a.last();
        assert(a =~= a.drop_last().push(x));
        assert(a.to_multiset().count(x) > 0);
        assert(b.contains(x));
        let k = choose|k: int| 0 <= k < b.len() && b[k] == x;
        let a1 = a.drop_last();
        let b1 = b.remove(k);
        assert(a1.to_multiset() =~= a.to_multiset().remove(x));
        assert(b1.to_multiset() =~= b.to_multiset().remove(x));
        lemma_encoded_pairs_rearranged(a1, b1);
        assert(encoded_pairs(a) =~= encoded_pairs(a1).push(encoded_pair(x)));
        assert(encoded_pairs(b) =~= encoded_pairs(b1).insert(k, encoded_pair(x)));
    }
}

/// The canonical parameter string does not depend on the order in which the
/// parameters are given.
pub proof fn lemma_parameter_text_order_free(a: Seq<Pair>, b: Seq<Pair>)
    requires
        a.to_multiset() == b.to_multiset(),
    ensures
        parameter_text(a) == parameter_text(b),
{
    lemma_pair_order_total();
    lemma_encoded_pairs_rearranged(a, b);
    encoded_pairs(a).lemma_sort_by_ensures(pair_order());
    lemma_sorted_is_canonical(b, canonical_pairs(a));
}

/// The text of joined ASCII pairs is ASCII.
pub proof fn lemma_joined_pairs_ascii(pairs: Seq<Pair>)
    requires
        forall|i: int|
            0 <= i < pairs.len() ==> is_ascii_bytes(#[trigger] pairs[i].0) && is_ascii_bytes(
                pairs[i].1,
            ),
    ensures
        is_ascii_bytes(joined_pairs(pairs)),
    decreases pairs.len(),
{
    if pairs.len() > 0 {
        let p = pairs.last();
        assert(is_ascii_bytes(p.0) && is_ascii_bytes(p.1));
        lemma_ascii_concat(p.0, seq![0x3du8]);
        lemma_ascii_concat(p.0 + seq![0x3du8], p.1);
        if pairs.len() > 1 {
            lemma_joined_pairs_ascii(pairs.drop_last());
            lemma_ascii_concat(joined_pairs(pairs.drop_last()), seq![0x26u8]);
            lemma_ascii_concat(joined_pairs(pairs.drop_last()) + seq![0x26u8], pair_text(p));
        }
    }
}

/// The canonical parameter string is ASCII.
pub proof fn lemma_parameter_text_ascii(params: Seq<Pair>)
    ensures
        is_ascii_bytes(parameter_text(params)),
{
    lemma_pair_order_total();
    let encoded = encoded_pairs(params);
    let sorted = canonical_pairs(params);
    encoded.lemma_sort_by_ensures(pair_order());
    assert forall|i: int| 0 <= i < sorted.len() implies is_ascii_bytes(#[trigger] sorted[i].0)
        && is_ascii_bytes(sorted[i].1) by {
        assert(sorted.contains(sorted[i]));
        assert(encoded.contains(sorted[i]));
        let k = choose|k: int| 0 <= k < encoded.len() && encoded[k] == sorted[i];
        lemma_percent_encoded_ascii(params[k].0);
        lemma_percent_encoded_ascii(params[k].1);
    }
    lemma_joined_pairs_ascii(sorted);
}

/// Compares two byte strings: negative where `a` comes first, zero where
/// they are equal, positive where `b` comes first.
pub fn compare_bytes(a: &[u8], b: &[u8]) -> (sign: i8)
    ensures
        (sign == 0) == (a@ == b@),
        (sign <= 0) == bytes_le(a@, b@),
        -1 <= sign <= 1,
{
    let mut i: usize = 0;
    assert(a@.skip(0) =~= a@ && b@.skip(0) =~= b@);
    while i < a.len() && i < b.len() && a[i] == b[i]
        invariant
            i <= a.len(),
            i <= b.len(),
            forall|j: int| 0 <= j < i ==> a@[j] == b@[j],
            bytes_le(a@, b@) == bytes_le(a@.skip(i as int), b@.skip(i as int)),
        decreases a.len() - i,
    {
        proof {
            assert(a@.skip(i as int).skip(1) =~= a@.skip(i + 1));
            assert(b@.skip(i as int).skip(1) =~= b@.skip(i + 1));
        }
        i += 1;
    }
    if i == a.len() && i == b.len() {
        assert(a@ =~= b@);
        0
    } else if i == a.len() {
        -1
    } else if i == b.len() {
        1
    } else if a[i] < b[i] {
        -1
    } else {
        1
    }
}

/// Tells whether `p` comes before `q` in the order of parameters, or is
/// equal to it.
pub fn pair_at_most(p: &(Vec<u8>, Vec<u8>), q: &(Vec<u8>, Vec<u8>)) -> (r: bool)
    ensures
        r == pair_le((p.0@, p.1@), (q.0@, q.1@)),
{
    let by_key = compare_bytes(p.0.as_slice(), q.0.as_slice());
    if by_key == 0 {
        compare_bytes(p.1.as_slice(), q.1.as_slice()) <= 0
    } else {
        by_key < 0
    }
}

/// Sorts byte pairs into the order of parameters.
pub fn sort_pairs(pairs: Vec<(Vec<u8>, Vec<u8>)>) -> (sorted: Vec<(Vec<u8>, Vec<u8>)>)
    ensures
        sorted_by(pairs_view(sorted@), pair_order()),
        pairs_view(sorted@).to_multiset() == pairs_view(pairs@).to_multiset(),
        pairs_view(sorted@) == pairs_view(pairs@).sort_by(pair_order()),
{
    broadcast use group_to_multiset_ensures;

    let ghost given = pairs_view(pairs@);
    let mut rest = pairs;
    let mut sorted: Vec<(Vec<u8>, Vec<u8>)> = Vec::new();
    proof {
        lemma_pair_order_total();
        assert(pairs_view(sorted@) =~= Seq::<Pair>::empty());
        assert(pairs_view(sorted@).to_multiset().add(given.to_multiset()) =~= given.to_multiset());
    }
    while rest.len() > 0
        invariant
            total_ordering(pair_order()),
            sorted_by(pairs_view(sorted@), pair_order()),
            pairs_view(sorted@).to_multiset().add(pairs_view(rest@).to_multiset())
                == given.to_multiset(),
        decreases rest.len(),
    {
        let ghost rest_before = pairs_view(rest@);
        let ghost sorted_before = pairs_view(sorted@);
        let item = rest.pop().unwrap();
        let ghost x: Pair = (item.0@, item.1@);
        proof {
            assert(rest_before =~= pairs_view(rest@).push(x));
        }
        let mut at: usize = 0;
        while at < sorted.len() && pair_at_most(&sorted[at], &item)
            invariant
                at <= sorted.len(),
                pairs_view(sorted@) == sorted_before,
                x == (item.0@, item.1@),
                forall|j: int| 0 <= j < at ==> pair_le(#[trigger] sorted_before[j], x),
            decreases sorted.len() - at,
        {
            at += 1;
        }
        proof {
            let after = sorted_before.insert(at as int, x);
            let r = pair_order();
            assert forall|i: int, j: int| 0 <= i < j < after.len() implies #[trigger] r(
                after[i],
                after[j],
            ) by {
                if j < at {
                    assert(r(sorted_before[i], sorted_before[j]));
                } else if j == at {
                    assert(pair_le(sorted_before[i], x));
                } else if i == at {
                    assert(!pair_le(sorted_before[at as int], x));
                    assert(r(x, sorted_before[at as int]) || r(sorted_before[at as int], x));
                    if j - 1 > at {
                        assert(r(sorted_before[at as int], sorted_before[j - 1]));
                        assert(r(x, sorted_before[at as int]) && r(
                            sorted_before[at as int],
                            sorted_before[j - 1],
                        ));
                    }
                } else if i < at {
                    assert(r(sorted_before[i], sorted_before[j - 1]));
                } else {
                    assert(r(sorted_before[i - 1], sorted_before[j - 1]));
                }
            }
        }
        sorted.insert(at, item);
        proof {
            let rest_after = pairs_view(rest@);
            assert(pairs_view(sorted@) =~= sorted_before.insert(at as int, x));
            vstd::seq_lib::to_multiset_insert(sorted_before, at as int, x);
            vstd::seq_lib::to_multiset_build(rest_after, x);
            assert(sorted_before.to_multiset().insert(x).add(rest_after.to_multiset())
                =~= sorted_before.to_multiset().add(rest_after.to_multiset().insert(x)));
        }
    }
    proof {
        assert(pairs_view(rest@) =~= Seq::<Pair>::empty());
        assert(pairs_view(sorted@).to_multiset() =~= given.to_multiset());
        given.lemma_sort_by_ensures(pair_order());
        lemma_sorted_unique(pairs_view(sorted@), given.sort_by(pair_order()), pair_order());
    }
    sorted
}

/// Percent-encodes the key and the value of each parameter.
pub fn encode_params(params: &Vec<(String, String)>) -> (encoded: Vec<(Vec<u8>, Vec<u8>)>)
    ensures
        pairs_view(encoded@) == encoded_pairs(param_bytes(params@)),
{
    let mut encoded: Vec<(Vec<u8>, Vec<u8>)> = Vec::new();
    let mut i: usize = 0;
    while i < params.len()
        invariant
            i <= params.len(),
            pairs_view(encoded@) == encoded_pairs(param_bytes(params@)).take(i as int),
        decreases params.len() - i,
    {
        let ghost before = pairs_view(encoded@);
        let key = percent_encode_bytes(params[i].0.as_str().as_bytes());
        let value = percent_encode_bytes(params[i].1.as_str().as_bytes());
        encoded.push((key, value));
        i += 1;
        proof {
            let all = encoded_pairs(param_bytes(params@));
            assert(param_bytes(params@)[i - 1] == (
                encode_utf8(params@[i - 1].0@),
                encode_utf8(params@[i - 1].1@),
            ));
            assert(all[i - 1] == (key@, value@));
            assert(pairs_view(encoded@) =~= before.push((key@, value@)));
            assert(all.take(i as int) =~= all.take(i - 1).push(all[i - 1]));
        }
    }
    assert(pairs_view(encoded@) =~= encoded_pairs(param_bytes(params@)));
    encoded
}

/// Writes the pairs as `key=value` joined by `&`.
pub fn join_pairs(pairs: &Vec<(Vec<u8>, Vec<u8>)>) -> (text: Vec<u8>)
    ensures
        text@ == joined_pairs(pairs_view(pairs@)),
{
    let mut text: Vec<u8> = Vec::new();
    let mut i: usize = 0;
    let ghost all = pairs_view(pairs@);
    assert(joined_pairs(all.take(0)) =~= Seq::<u8>::empty());
    while i < pairs.len()
        invariant
            i <= pairs.len(),
            all == pairs_view(pairs@),
            text@ == joined_pairs(all.take(i as int)),
        decreases pairs.len() - i,
    {
        let ghost before = text@;
        if i > 0 {
            text.push(0x26);
        }
        append_bytes(&mut text, pairs[i].0.as_slice());
        text.push(0x3d);
        append_bytes(&mut text, pairs[i].1.as_slice());
        i += 1;
        proof {
            let done = all.take(i as int);
            assert(done.drop_last() =~= all.take(i - 1));
            assert(done.last() == all[i - 1]);
            assert(text@ =~= joined_pairs(done));
        }
    }
    assert(all.take(pairs.len() as int) =~= all);
    text
}

/// The canonical parameter string as bytes.
pub fn parameter_bytes(params: &Vec<(String, String)>) -> (text: Vec<u8>)
    ensures
        text@ == parameter_text(param_bytes(params@)),
        is_ascii_bytes(text@),
{
    let sorted = sort_pairs(encode_params(params));
    proof {
        lemma_parameter_text_ascii(param_bytes(params@));
    }
    join_pairs(&sorted)
}

/// The canonical parameter string of a request.
pub fn parameter_string(params: &Vec<(String, String)>) -> (text: String)
    ensures
        encode_utf8(text@) == parameter_text(param_bytes(params@)),
        text@ == ascii_text(parameter_text(param_bytes(params@))),
{
    text_from_ascii(parameter_bytes(params))
}

} // verus!
