//! Device keys and their lexicographic order.
//!
//! A device key is `[bus_number, port_1, .., port_n]`: the bus number
//! followed by the chain of hub port numbers from the bus root down to the
//! device.  Keys are compared lexicographically, so a parent hub's key
//! always orders strictly before the keys of everything attached below it.

use vstd::prelude::*;

verus! {

/// Strict lexicographic order on byte sequences: element by element from
/// the front, a missing element ordering before any present one.
pub open spec fn lex_lt(a: Seq<u8>, b: Seq<u8>) -> bool
    decreases a.len(),
{
    if b.len() == 0 {
        false
    } else if a.len() == 0 {
        true
    } else if a[0] < b[0] {
        true
    } else if a[0] > b[0] {
        false
    } else {
        lex_lt(a.skip(1), b.skip(1))
    }
}

/// Compare two device keys lexicographically.
pub fn key_lt(a: &Vec<u8>, b: &Vec<u8>) -> (r: bool)
    ensures
        r == lex_lt(a@, b@),
{
    let mut i: usize = 0;
    proof {
        assert(a@.skip(0) =~= a@);
        assert(b@.skip(0) =~= b@);
    }
    while i < a.len() && i < b.len()
        invariant
            i <= a.len(),
            i <= b.len(),
            lex_lt(a@, b@) == lex_lt(a@.skip(i as int), b@.skip(i as int)),
        decreases a@.len() - i,
    {
        if a[i] < b[i] {
            return true;
        }
        if a[i] > b[i] {
            return false;
        }
        proof {
            lemma_lex_lt_step(a@.skip(i as int), b@.skip(i as int));
            assert(a@.skip(i as int).skip(1) =~= a@.skip(i + 1));
            assert(b@.skip(i as int).skip(1) =~= b@.skip(i + 1));
        }
        i = i + 1;
    }
    a.len() < b.len()
}

/// Equal first elements leave the order to the tails.
proof fn lemma_lex_lt_step(a: Seq<u8>, b: Seq<u8>)
    requires
        a.len() > 0,
        b.len() > 0,
        a[0] == b[0],
    ensures
        lex_lt(a, b) == lex_lt(a.skip(1), b.skip(1)),
{
}

/// The order is asymmetric: no two sequences order strictly before each
/// other.
pub proof fn lemma_lex_asymmetric(a: Seq<u8>, b: Seq<u8>)
    requires
        lex_lt(a, b),
    ensures
        !lex_lt(b, a),
        !(a =~= b),
    decreases a.len(),
{
    if b.len() == 0 {
    } else if a.len() == 0 {
    } else if a[0] < b[0] {
    } else if a[0] > b[0] {
    } else {
        lemma_lex_asymmetric(a.skip(1), b.skip(1));
        if a =~= b {
            assert(a.skip(1) =~= b.skip(1));
        }
    }
}

/// The order is total: two sequences are ordered one way, the other way,
/// or equal.
pub proof fn lemma_lex_total(a: Seq<u8>, b: Seq<u8>)
    ensures
        lex_lt(a, b) || lex_lt(b, a) || a =~= b,
    decreases a.len(),
{
    if b.len() == 0 {
        if a.len() == 0 {
            assert(a =~= b);
        }
    } else if a.len() == 0 {
    } else if a[0] < b[0] {
    } else if a[0] > b[0] {
    } else {
        lemma_lex_total(a.skip(1), b.skip(1));
        if a.skip(1) =~= b.skip(1) {
            assert forall|k: int| 0 <= k < a.len() implies a[k] == b[k] by {
                if k > 0 {
                    assert(a[k] == a.skip(1)[k - 1]);
                    assert(b[k] == b.skip(1)[k - 1]);
                }
            }
            assert(a =~= b);
        }
    }
}

/// The order is transitive.
pub proof fn lemma_lex_transitive(a: Seq<u8>, b: Seq<u8>, c: Seq<u8>)
    requires
        lex_lt(a, b),
        lex_lt(b, c),
    ensures
        lex_lt(a, c),
    decreases a.len(),
{
    if c.len() == 0 {
    } else if b.len() == 0 {
    } else if a.len() == 0 {
    } else {
        if a[0] == b[0] && b[0] == c[0] {
            lemma_lex_transitive(a.skip(1), b.skip(1), c.skip(1));
        }
    }
}

/// A strict prefix orders strictly before its extensions: a parent hub's
/// key orders before the key of every device below it.
pub proof fn lemma_lex_prefix_lt(a: Seq<u8>, b: Seq<u8>)
    requires
        a.len() < b.len(),
        a =~= b.subrange(0, a.len() as int),
    ensures
        lex_lt(a, b),
    decreases a.len(),
{
    if a.len() == 0 {
    } else {
        assert(a[0] == b[0]);
        assert(a.skip(1) =~= b.skip(1).subrange(0, a.skip(1).len() as int));
        lemma_lex_prefix_lt(a.skip(1), b.skip(1));
        lemma_lex_lt_step(a, b);
    }
}

} // verus!
