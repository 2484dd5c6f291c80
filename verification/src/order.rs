//! Byte-lexicographic string order.
//!
//! Rust orders strings by comparing their UTF-8 bytes from the left;
//! the export orders its rows by date under exactly that order.  The
//! order is stated here over the encoded bytes of the character
//! sequences, and decided executably by one pass over the byte slices.

use vstd::prelude::*;
use vstd::utf8::encode_utf8;

verus! {

/// Byte-lexicographic `<=` on byte sequences: the empty sequence comes
/// first, otherwise the first differing byte decides, and a proper
/// prefix precedes what it prefixes.
pub open spec fn lex_le(a: Seq<u8>, b: Seq<u8>) -> bool
    decreases a.len(),
{
    if a.len() == 0 {
        true
    } else if b.len() == 0 {
        false
    } else if a[0] < b[0] {
        true
    } else if a[0] > b[0] {
        false
    } else {
        lex_le(a.drop_first(), b.drop_first())
    }
}

/// String `<=` as Rust's own string comparison decides it:
/// byte-lexicographic on the UTF-8 encodings.
pub open spec fn str_le(a: Seq<char>, b: Seq<char>) -> bool {
    lex_le(encode_utf8(a), encode_utf8(b))
}

/// One of two byte sequences always precedes the other.
pub proof fn lemma_lex_le_total(a: Seq<u8>, b: Seq<u8>)
    ensures
        lex_le(a, b) || lex_le(b, a),
    decreases a.len(),
{
    if a.len() > 0 && b.len() > 0 && a[0] == b[0] {
        lemma_lex_le_total(a.drop_first(), b.drop_first());
    }
}

/// The order is transitive.
pub proof fn lemma_lex_le_trans(a: Seq<u8>, b: Seq<u8>, c: Seq<u8>)
    requires
        lex_le(a, b),
        lex_le(b, c),
    ensures
        lex_le(a, c),
    decreases a.len(),
{
    if a.len() > 0 {
        assert(b.len() > 0);
        assert(c.len() > 0);
        if a[0] == b[0] && b[0] == c[0] {
            lemma_lex_le_trans(a.drop_first(), b.drop_first(), c.drop_first());
        }
    }
}

/// Every string precedes itself: the order is reflexive.
pub proof fn lemma_str_le_refl(a: Seq<char>)
    ensures
        str_le(a, a),
{
    lemma_lex_le_total(encode_utf8(a), encode_utf8(a));
}

/// One of two strings always precedes the other.
pub proof fn lemma_str_le_total(a: Seq<char>, b: Seq<char>)
    ensures
        str_le(a, b) || str_le(b, a),
{
    lemma_lex_le_total(encode_utf8(a), encode_utf8(b));
}

/// String order is transitive.
pub proof fn lemma_str_le_trans(a: Seq<char>, b: Seq<char>, c: Seq<char>)
    requires
        str_le(a, b),
        str_le(b, c),
    ensures
        str_le(a, c),
{
    lemma_lex_le_trans(encode_utf8(a), encode_utf8(b), encode_utf8(c));
}

/// Decides `lex_le` on two byte slices.
fn bytes_le(a: &[u8], b: &[u8]) -> (r: bool)
    ensures
        r == lex_le(a@, b@),
{
    let mut i: usize = 0;
    proof {
        assert(a@.skip(0) =~= a@);
        assert(b@.skip(0) =~= b@);
    }
    while i < a.len() && i < b.len()
        invariant
            i <= a@.len(),
            i <= b@.len(),
            lex_le(a@, b@) == lex_le(a@.skip(i as int), b@.skip(i as int)),
        decreases a@.len() - i,
    {
        let x = a[i];
        let y = b[i];
        proof {
            assert(a@.skip(i as int)[0] == x);
            assert(b@.skip(i as int)[0] == y);
        }
        if x < y {
            return true;
        }
        if x > y {
            return false;
        }
        proof {
            assert(a@.skip(i as int).drop_first() =~= a@.skip(i + 1));
            assert(b@.skip(i as int).drop_first() =~= b@.skip(i + 1));
        }
        i += 1;
    }
    if i >= a.len() {
        proof {
            assert(a@.skip(i as int).len() == 0);
        }
        true
    } else {
        proof {
            assert(b@.skip(i as int).len() == 0);
            assert(a@.skip(i as int).len() > 0);
        }
        false
    }
}

/// Decides `str_le` on two strings.
pub fn str_le_exec(a: &String, b: &String) -> (r: bool)
    ensures
        r == str_le(a@, b@),
{
    bytes_le(a.as_str().as_bytes(), b.as_str().as_bytes())
}

} // verus!
