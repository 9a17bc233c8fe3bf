//! The order of names: byte by byte over their UTF-8 encoding, the order
//! in which Rust itself compares strings.

use vstd::prelude::*;
use vstd::utf8::encode_utf8;

verus! {

/// `a` comes strictly before `b` when both are read from position `from`
/// on: at the first position where they differ `a` holds the smaller byte,
/// or `a` ends there and `b` goes on.
pub open spec fn bytes_before_from(a: Seq<u8>, b: Seq<u8>, from: int) -> bool
    decreases a.len() - from,
{
    if from < 0 || from >= b.len() {
        false
    } else if from >= a.len() {
        true
    } else if a[from] != b[from] {
        a[from] < b[from]
    } else {
        bytes_before_from(a, b, from + 1)
    }
}

/// `a` comes strictly before `b` in lexicographic order.
pub open spec fn bytes_before(a: Seq<u8>, b: Seq<u8>) -> bool {
    bytes_before_from(a, b, 0)
}

/// The name `a` comes strictly before the name `b`.
pub open spec fn name_before(a: Seq<char>, b: Seq<char>) -> bool {
    bytes_before(encode_utf8(a), encode_utf8(b))
}

/// Two byte strings that agree below `from`, and of which neither comes
/// before the other from there on, are the same string.
pub proof fn lemma_bytes_neither_before_from(a: Seq<u8>, b: Seq<u8>, from: int)
    requires
        0 <= from,
        from <= a.len(),
        from <= b.len(),
        forall|i: int| 0 <= i < from ==> a[i] == b[i],
        !bytes_before_from(a, b, from),
        !bytes_before_from(b, a, from),
    ensures
        a == b,
    decreases a.len() - from,
{
    if from >= a.len() || from >= b.len() {
        assert(a.len() == b.len());
        assert(a =~= b);
    } else {
        assert(a[from] == b[from]);
        lemma_bytes_neither_before_from(a, b, from + 1);
    }
}

/// No byte string comes before itself, and of two strings at most one comes
/// before the other.
pub proof fn lemma_bytes_before_asymmetric_from(a: Seq<u8>, b: Seq<u8>, from: int)
    requires
        0 <= from,
    ensures
        !(bytes_before_from(a, b, from) && bytes_before_from(b, a, from)),
    decreases a.len() - from,
{
    if from < a.len() && from < b.len() && a[from] == b[from] {
        lemma_bytes_before_asymmetric_from(a, b, from + 1);
    }
}

/// Coming before is transitive.
pub proof fn lemma_bytes_before_transitive_from(a: Seq<u8>, b: Seq<u8>, c: Seq<u8>, from: int)
    requires
        0 <= from,
        bytes_before_from(a, b, from),
        bytes_before_from(b, c, from),
    ensures
        bytes_before_from(a, c, from),
    decreases a.len() - from,
{
    if from < a.len() && from < b.len() && from < c.len() && a[from] == b[from] && b[from]
        == c[from] {
        lemma_bytes_before_transitive_from(a, b, c, from + 1);
    }
}

/// The order of names is a strict total order: of two names exactly one of
/// "before", "equal" and "after" holds, and "before" is transitive.
pub proof fn lemma_name_order_total(a: Seq<char>, b: Seq<char>, c: Seq<char>)
    ensures
        !name_before(a, a),
        !(name_before(a, b) && name_before(b, a)),
        !name_before(a, b) && !name_before(b, a) ==> a == b,
        name_before(a, b) && name_before(b, c) ==> name_before(a, c),
{
    let ea = encode_utf8(a);
    let eb = encode_utf8(b);
    let ec = encode_utf8(c);
    lemma_bytes_before_asymmetric_from(ea, ea, 0);
    lemma_bytes_before_asymmetric_from(ea, eb, 0);
    if !name_before(a, b) && !name_before(b, a) {
        lemma_bytes_neither_before_from(ea, eb, 0);
        vstd::utf8::encode_utf8_decode_utf8(a);
        vstd::utf8::encode_utf8_decode_utf8(b);
    }
    if name_before(a, b) && name_before(b, c) {
        lemma_bytes_before_transitive_from(ea, eb, ec, 0);
    }
}

/// Tells whether the bytes `a` come strictly before the bytes `b`.
pub fn compare_bytes_before(a: &[u8], b: &[u8]) -> (before: bool)
    ensures
        before == bytes_before(a@, b@),
{
    let mut i: usize = 0;
    while i < a.len() && i < b.len()
        invariant
            i <= a.len(),
            i <= b.len(),
            bytes_before_from(a@, b@, i as int) == bytes_before(a@, b@),
        decreases a.len() - i,
    {
        if a[i] != b[i] {
            return a[i] < b[i];
        }
        i = i + 1;
    }
    i < b.len()
}

/// Tells whether two byte strings are the same.
pub fn bytes_equal(a: &[u8], b: &[u8]) -> (equal: bool)
    ensures
        equal == (a@ == b@),
{
    if a.len() != b.len() {
        return false;
    }
    let mut i: usize = 0;
    while i < a.len()
        invariant
            i <= a.len(),
            a.len() == b.len(),
            forall|j: int| 0 <= j < i ==> a@[j] == b@[j],
        decreases a.len() - i,
    {
        if a[i] != b[i] {
            return false;
        }
        i = i + 1;
    }
    assert(a@ =~= b@);
    true
}

/// Tells whether two names are the same.
pub fn names_equal(a: &str, b: &str) -> (equal: bool)
    ensures
        equal == (a@ == b@),
{
    proof {
        vstd::utf8::encode_utf8_decode_utf8(a@);
        vstd::utf8::encode_utf8_decode_utf8(b@);
    }
    bytes_equal(a.as_bytes(), b.as_bytes())
}

/// Tells whether the name `a` comes strictly before the name `b`.
pub fn compare_name_before(a: &str, b: &str) -> (before: bool)
    ensures
        before == name_before(a@, b@),
{
    compare_bytes_before(a.as_bytes(), b.as_bytes())
}

} // verus!
