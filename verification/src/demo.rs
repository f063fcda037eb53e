//! The computations of the demo page: sorting bytes in a worker, and the
//! text around it.
use crate::text::{debug_bytes, debug_list, parse_usize, parsed_usize, push_char};
use vstd::prelude::*;
use vstd::string::StringExecFns;

verus! {

/// Whether `s` is in ascending order.
pub open spec fn is_sorted(s: Seq<u8>) -> bool {
    forall|a: int, b: int| 0 <= a < b < s.len() ==> s[a] <= s[b]
}

/// How often the byte `x` occurs in `s`.
pub open spec fn occurrences(s: Seq<u8>, x: u8) -> nat {
    s.to_multiset().count(x)
}

/// The bytes of `v` in ascending order, by counting how often each byte value
/// occurs and writing each value out that many times.
fn counting_sort(v: &Vec<u8>) -> (r: Vec<u8>)
    ensures
        is_sorted(r@),
        r@.to_multiset() == v@.to_multiset(),
{
    broadcast use vstd::seq_lib::to_multiset_build;
    broadcast use vstd::multiset::group_multiset_axioms;
    broadcast use vstd::seq_lib::group_to_multiset_ensures;
    broadcast use vstd::multiset::group_multiset_properties;

    let mut counts: Vec<usize> = Vec::new();
    let mut b: usize = 0;
    while b < 256
        invariant
            b <= 256,
            counts@.len() == b,
            forall|k: int| 0 <= k < b ==> #[trigger] counts@[k] == 0,
        decreases 256 - b,
    {
        counts.push(0);
        b = b + 1;
    }
    let n = v.len();
    let mut i: usize = 0;
    assert(v@.take(0) =~= Seq::<u8>::empty());
    while i < n
        invariant
            n == v@.len(),
            i <= n,
            counts@.len() == 256,
            forall|x: u8| #[trigger] counts@[x as int] == occurrences(v@.take(i as int), x),
            forall|k: int| 0 <= k < 256 ==> #[trigger] counts@[k] <= i,
        decreases n - i,
    {
        let x = v[i];
        let ghost old_counts = counts@;
        let c = counts[x as usize];
        counts.set(x as usize, c + 1);
        assert(v@.take(i + 1) =~= v@.take(i as int).push(x));
        proof {
            vstd::seq_lib::to_multiset_build(v@.take(i as int), x);
        }
        assert(v@.take(i + 1).to_multiset() == v@.take(i as int).to_multiset().insert(x));
        i = i + 1;
        assert forall|y: u8| #[trigger] counts@[y as int] == occurrences(v@.take(i as int), y) by {
            if y != x {
                assert(counts@[y as int] == old_counts[y as int]);
            }
        }
    }
    assert(v@.take(n as int) =~= v@);

    let mut out: Vec<u8> = Vec::new();
    let mut b: usize = 0;
    while b < 256
        invariant
            b <= 256,
            counts@.len() == 256,
            forall|x: u8| #[trigger] counts@[x as int] == occurrences(v@, x),
            is_sorted(out@),
            forall|a: int| 0 <= a < out@.len() ==> #[trigger] out@[a] < b,
            forall|x: u8|
                #[trigger] occurrences(out@, x) == if x < b {
                    counts@[x as int] as nat
                } else {
                    0
                },
        decreases 256 - b,
    {
        let c = counts[b];
        let mut j: usize = 0;
        while j < c
            invariant
                b < 256,
                j <= c,
                counts@.len() == 256,
                c == counts@[b as int],
                is_sorted(out@),
                forall|a: int| 0 <= a < out@.len() ==> #[trigger] out@[a] <= b,
                forall|x: u8|
                    #[trigger] occurrences(out@, x) == if x < b {
                        counts@[x as int] as nat
                    } else if x == b {
                        j as nat
                    } else {
                        0
                    },
            decreases c - j,
        {
            let ghost before = out@;
            let byte = b as u8;
            assert(byte == b);
            out.push(byte);
            assert(out@ =~= before.push(byte));
            proof {
                vstd::seq_lib::to_multiset_build(before, byte);
            }
            assert(out@.to_multiset() == before.to_multiset().insert(byte));
            j = j + 1;
            assert forall|x: u8| #[trigger] occurrences(out@, x) == if x < b {
                counts@[x as int] as nat
            } else if x == b {
                j as nat
            } else {
                0
            } by {
                assert(occurrences(out@, x) == occurrences(before, x) + if x == byte {
                    1nat
                } else {
                    0nat
                });
            }
        }
        b = b + 1;
    }
    assert(out@.to_multiset() =~= v@.to_multiset()) by {
        assert forall|x: u8| out@.to_multiset().count(x) == v@.to_multiset().count(x) by {
            assert(occurrences(out@, x) == counts@[x as int]);
            assert(occurrences(v@, x) == counts@[x as int]);
        }
    }
    out
}

/// `v` in ascending order: the same bytes, each as often, sorted.
pub fn sort(v: Box<[u8]>) -> (r: Box<[u8]>)
    ensures
        is_sorted(r@),
        r@.to_multiset() == v@.to_multiset(),
{
    let bytes = v.into_vec();
    into_boxed_bytes(counting_sort(&bytes))
}

/// Calls `Vec::into_boxed_slice`, which keeps the elements.
#[verifier::external_body]
fn into_boxed_bytes(v: Vec<u8>) -> (b: Box<[u8]>)
    ensures
        b@ == v@,
{
    v.into_boxed_slice()
}

/// A list of bytes that the demo page sends to the worker to be sorted.
pub struct VecType(pub Vec<u8>);

/// `v` with its bytes in ascending order.
pub fn sort_vec(v: VecType) -> (r: VecType)
    ensures
        is_sorted(r.0@),
        r.0@.to_multiset() == v.0@.to_multiset(),
{
    VecType(counting_sort(&v.0))
}

/// Sorting has one result: two sorted lists with the same elements are the
/// same list. So sorting a sorted list gives it back unchanged, and both sorts
/// above agree with each other.
pub proof fn law_sorted_order_is_unique(a: Seq<u8>, b: Seq<u8>)
    requires
        is_sorted(a),
        is_sorted(b),
        a.to_multiset() == b.to_multiset(),
    ensures
        a == b,
{
    let leq = |x: u8, y: u8| x <= y;
    assert(vstd::relations::sorted_by(a, leq)) by {
        assert forall|i: int, j: int| 0 <= i < j < a.len() implies leq(a[i], a[j]) by {}
    }
    assert(vstd::relations::sorted_by(b, leq)) by {
        assert forall|i: int, j: int| 0 <= i < j < b.len() implies leq(b[i], b[j]) by {}
    }
    assert(vstd::relations::total_ordering(leq));
    vstd::seq_lib::lemma_sorted_unique(a, b, leq);
}

/// How many values the page asks for: the number in the input field, or 1
/// when the field does not hold a number.
pub fn requested_values(input: &str) -> (n: usize)
    ensures
        n == match parsed_usize(input@) {
            Some(k) => k,
            None => 1,
        },
{
    match parse_usize(input) {
        Some(k) => k,
        None => 1,
    }
}

/// The text that shows the values sent and the sorted values that came
/// back: both as `{:?}` writes them, joined by `" -> "`.
pub fn describe_sort(values: &[u8], sorted: &[u8]) -> (text: String)
    ensures
        text@ == debug_list(values@) + seq![' ', '-', '>', ' '] + debug_list(sorted@),
{
    let mut text = debug_bytes(values);
    push_char(&mut text, ' ');
    push_char(&mut text, '-');
    push_char(&mut text, '>');
    push_char(&mut text, ' ');
    let tail = debug_bytes(sorted);
    text.append(tail.as_str());
    text
}

} // verus!
