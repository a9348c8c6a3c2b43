//! The order in which node addresses are listed.
//!
//! Addresses are compared as their UTF-8 encodings, byte by byte: the first
//! position where two encodings differ decides, and a proper prefix comes
//! before what extends it.

use vstd::prelude::*;
use vstd::string::StringSliceAdditionalSpecFns;
use vstd::utf8::encode_utf8;

verus! {

/// Lexicographic order on byte strings, strict.
pub open spec fn bytes_lt(a: Seq<u8>, b: Seq<u8>) -> bool
    decreases a.len(),
{
    if b.len() == 0 {
        false
    } else if a.len() == 0 {
        true
    } else if a[0] != b[0] {
        a[0] < b[0]
    } else {
        bytes_lt(a.drop_first(), b.drop_first())
    }
}

/// `a` comes strictly before `b` in address order.
pub open spec fn address_lt(a: Seq<char>, b: Seq<char>) -> bool {
    bytes_lt(encode_utf8(a), encode_utf8(b))
}

/// Every element comes strictly before each later one.
pub open spec fn strictly_ascending(s: Seq<Seq<char>>) -> bool {
    forall|i: int, j: int| 0 <= i < j < s.len() ==> address_lt(#[trigger] s[i], #[trigger] s[j])
}

/// Two byte strings that agree on their first `n` positions compare as
/// their remainders do.
pub proof fn lemma_bytes_lt_skip(a: Seq<u8>, b: Seq<u8>, n: int)
    requires
        0 <= n <= a.len(),
        n <= b.len(),
        a.subrange(0, n) == b.subrange(0, n),
    ensures
        bytes_lt(a, b) == bytes_lt(a.subrange(n, a.len() as int), b.subrange(n, b.len() as int)),
    decreases n,
{
    if n == 0 {
        assert(a.subrange(0, a.len() as int) == a);
        assert(b.subrange(0, b.len() as int) == b);
    } else {
        assert(a[0] == a.subrange(0, n)[0]);
        assert(b[0] == b.subrange(0, n)[0]);
        let a1 = a.drop_first();
        let b1 = b.drop_first();
        assert(a1.subrange(0, n - 1) == a.subrange(0, n).drop_first());
        assert(b1.subrange(0, n - 1) == b.subrange(0, n).drop_first());
        lemma_bytes_lt_skip(a1, b1, n - 1);
        assert(a1.subrange(n - 1, a1.len() as int) == a.subrange(n, a.len() as int));
        assert(b1.subrange(n - 1, b1.len() as int) == b.subrange(n, b.len() as int));
    }
}

/// No byte string comes before itself.
pub proof fn lemma_bytes_lt_irreflexive(a: Seq<u8>)
    ensures
        !bytes_lt(a, a),
    decreases a.len(),
{
    if a.len() > 0 {
        lemma_bytes_lt_irreflexive(a.drop_first());
    }
}

/// The order on byte strings is transitive.
pub proof fn lemma_bytes_lt_transitive(a: Seq<u8>, b: Seq<u8>, c: Seq<u8>)
    requires
        bytes_lt(a, b),
        bytes_lt(b, c),
    ensures
        bytes_lt(a, c),
    decreases a.len(),
{
    if a.len() > 0 && a[0] == b[0] && b[0] == c[0] {
        lemma_bytes_lt_transitive(a.drop_first(), b.drop_first(), c.drop_first());
    }
}

/// Of two different byte strings one comes before the other.
pub proof fn lemma_bytes_lt_connected(a: Seq<u8>, b: Seq<u8>)
    ensures
        a == b || bytes_lt(a, b) || bytes_lt(b, a),
    decreases a.len(),
{
    if a.len() > 0 && b.len() > 0 && a[0] == b[0] {
        lemma_bytes_lt_connected(a.drop_first(), b.drop_first());
        if a.drop_first() == b.drop_first() {
            assert(a =~= seq![a[0]] + a.drop_first());
            assert(b =~= seq![b[0]] + b.drop_first());
        }
    }
}

/// Address order is a strict total order: no address comes before itself,
/// the order is transitive, and of two different addresses one comes before
/// the other.
pub proof fn lemma_address_order(a: Seq<char>, b: Seq<char>, c: Seq<char>)
    ensures
        !address_lt(a, a),
        address_lt(a, b) && address_lt(b, c) ==> address_lt(a, c),
        a != b ==> address_lt(a, b) || address_lt(b, a),
        !(address_lt(a, b) && address_lt(b, a)),
{
    lemma_bytes_lt_irreflexive(encode_utf8(a));
    if address_lt(a, b) && address_lt(b, c) {
        lemma_bytes_lt_transitive(encode_utf8(a), encode_utf8(b), encode_utf8(c));
    }
    if address_lt(a, b) && address_lt(b, a) {
        lemma_bytes_lt_transitive(encode_utf8(a), encode_utf8(b), encode_utf8(a));
    }
    if a != b {
        lemma_bytes_lt_connected(encode_utf8(a), encode_utf8(b));
        vstd::utf8::encode_utf8_decode_utf8(a);
        vstd::utf8::encode_utf8_decode_utf8(b);
    }
}

/// An ascending list names no address twice.
pub proof fn lemma_ascending_no_duplicates(s: Seq<Seq<char>>)
    requires
        strictly_ascending(s),
    ensures
        s.no_duplicates(),
{
    assert forall|i: int, j: int| 0 <= i < s.len() && 0 <= j < s.len() && i != j implies s[i]
        != s[j] by {
        lemma_address_order(s[i], s[j], s[j]);
    }
}

/// An ascending list is determined by the addresses it names: two ascending
/// lists that name the same addresses are the same list.
pub proof fn lemma_ascending_is_unique(s: Seq<Seq<char>>, t: Seq<Seq<char>>)
    requires
        strictly_ascending(s),
        strictly_ascending(t),
        s.to_set() == t.to_set(),
    ensures
        s == t,
    decreases s.len(),
{
    if s.len() == 0 || t.len() == 0 {
        if s.len() > 0 {
            assert(s.to_set().contains(s[0]));
        }
        if t.len() > 0 {
            assert(t.to_set().contains(t[0]));
        }
        assert(s =~= t);
    } else {
        // Each list starts with the least address it names, so both start alike.
        assert(s.to_set().contains(s[0]));
        assert(t.to_set().contains(t[0]));
        lemma_address_order(s[0], t[0], s[0]);
        assert(s[0] == t[0]);
        // Without it, the rest of each list names what the rest of the other names.
        let s1 = s.drop_first();
        let t1 = t.drop_first();
        assert forall|x: Seq<char>| s1.contains(x) implies t1.contains(x) by {
            lemma_address_order(s[0], x, x);
            assert(s.to_set().contains(x));
            let k = choose|k: int| 0 <= k < t.len() && t[k] == x;
            assert(t1[k - 1] == x);
        }
        assert forall|x: Seq<char>| t1.contains(x) implies s1.contains(x) by {
            lemma_address_order(t[0], x, x);
            assert(t.to_set().contains(x));
            let k = choose|k: int| 0 <= k < s.len() && s[k] == x;
            assert(s1[k - 1] == x);
        }
        assert(s1.to_set() =~= t1.to_set());
        lemma_ascending_is_unique(s1, t1);
        assert(s =~= seq![s[0]] + s1);
        assert(t =~= seq![t[0]] + t1);
    }
}

/// Decides the address order.
pub fn address_less(a: &str, b: &str) -> (less: bool)
    ensures
        less == address_lt(a@, b@),
{
    let x = a.as_bytes();
    let y = b.as_bytes();
    let mut i: usize = 0;
    while i < x.len() && i < y.len() && x[i] == y[i]
        invariant
            i <= x@.len(),
            i <= y@.len(),
            x@.subrange(0, i as int) == y@.subrange(0, i as int),
        decreases x@.len() - i,
    {
        i += 1;
    }
    proof {
        lemma_bytes_lt_skip(x@, y@, i as int);
    }
    if i == y.len() {
        false
    } else if i == x.len() {
        true
    } else {
        x[i] < y[i]
    }
}

/// Puts `address` at its place in an ascending list, unless the list names it already.
pub fn insert_ascending(list: &mut Vec<String>, address: &str)
    requires
        strictly_ascending(old(list).deep_view()),
    ensures
        strictly_ascending(final(list).deep_view()),
        final(list).deep_view().to_set() == old(list).deep_view().to_set().insert(address@),
{
    let ghost before = list.deep_view();
    let mut at: usize = 0;
    while at < list.len() && address_less(list[at].as_str(), address)
        invariant
            at <= list.len(),
            list.deep_view() == before,
            forall|j: int| 0 <= j < at ==> address_lt(#[trigger] before[j], address@),
        decreases list.len() - at,
    {
        at += 1;
    }
    if at < list.len() && !address_less(address, list[at].as_str()) {
        // Neither comes before the other: the list names `address` at `at`.
        proof {
            lemma_address_order(before[at as int], address@, address@);
            assert(before.to_set().insert(address@) =~= before.to_set());
        }
    } else {
        list.insert(at, address.to_owned());
        proof {
            let after = before.insert(at as int, address@);
            assert(list.deep_view() =~= after);
            assert forall|i: int, j: int| 0 <= i < j < after.len() implies address_lt(
                #[trigger] after[i],
                #[trigger] after[j],
            ) by {
                if j > at && i == at {
                    lemma_address_order(address@, before[at as int], before[j - 1]);
                }
            }
            assert forall|a: Seq<char>| after.contains(a) <==> (before.contains(a) || a
                == address@) by {
                if before.contains(a) {
                    let k = choose|k: int| 0 <= k < before.len() && before[k] == a;
                    assert(after[if k < at { k } else { k + 1 }] == a);
                }
                if a == address@ {
                    assert(after[at as int] == a);
                }
            }
            assert(after.to_set() =~= before.to_set().insert(address@));
        }
    }
}

} // verus!
