//! Location addressing: parsing `<busnum>-<port>[.<port>]*` strings into
//! device keys.
//!
//! The grammar is strict: the bus number and every chain segment are
//! non-empty runs of decimal digits whose value fits in a byte.  A string
//! that does not match yields no key ("target not found"), never an error.

use vstd::prelude::*;

use vstd::string::StringSliceAdditionalSpecFns;

verus! {

/// ASCII decimal digit.
pub open spec fn is_digit(b: u8) -> bool {
    0x30 <= b <= 0x39
}

/// Every byte is an ASCII decimal digit.
pub open spec fn all_digits(s: Seq<u8>) -> bool {
    forall|i: int| 0 <= i < s.len() ==> is_digit(#[trigger] s[i])
}

/// The number a run of decimal digits denotes.
pub open spec fn digits_value(s: Seq<u8>) -> int
    decreases s.len(),
{
    if s.len() == 0 {
        0
    } else {
        digits_value(s.drop_last()) * 10 + (s.last() - 0x30)
    }
}

/// A valid segment: non-empty, all digits, value at most 255.
pub open spec fn seg_ok(s: Seq<u8>) -> bool {
    s.len() > 0 && all_digits(s) && digits_value(s) <= 255
}

/// Index of the first occurrence of a byte, or -1.
pub open spec fn find_byte(s: Seq<u8>, b: u8) -> int
    decreases s.len(),
{
    if s.len() == 0 {
        -1
    } else if s[0] == b {
        0
    } else if find_byte(s.skip(1), b) < 0 {
        -1
    } else {
        find_byte(s.skip(1), b) + 1
    }
}

/// The port numbers a dot-separated chain denotes, if every segment is
/// valid.
pub open spec fn chain_key(s: Seq<u8>) -> Option<Seq<u8>>
    decreases s.len(),
{
    let d = find_byte(s, 0x2e);
    if !(0 <= d < s.len()) {
        if seg_ok(s) {
            Some(seq![digits_value(s) as u8])
        } else {
            None
        }
    } else {
        let head = s.subrange(0, d);
        if seg_ok(head) {
            match chain_key(s.subrange(d + 1, s.len() as int)) {
                Some(rest) => Some(seq![digits_value(head) as u8] + rest),
                None => None,
            }
        } else {
            None
        }
    }
}

/// The device key a location string denotes: the bus number before the
/// first `-`, then the dot-separated port chain; `None` when the string
/// does not match the grammar.
pub open spec fn loc_key(s: Seq<u8>) -> Option<Seq<u8>> {
    let d = find_byte(s, 0x2d);
    if !(0 <= d < s.len()) {
        None
    } else {
        let bus = s.subrange(0, d);
        if seg_ok(bus) {
            match chain_key(s.subrange(d + 1, s.len() as int)) {
                Some(chain) => Some(seq![digits_value(bus) as u8] + chain),
                None => None,
            }
        } else {
            None
        }
    }
}

/// Where `find_byte` points: at the first occurrence when there is one,
/// nowhere otherwise.
pub proof fn lemma_find_byte(s: Seq<u8>, b: u8)
    ensures
        find_byte(s, b) == -1 || 0 <= find_byte(s, b) < s.len(),
        find_byte(s, b) >= 0 ==> s[find_byte(s, b)] == b,
        forall|i: int| 0 <= i < s.len() && i < find_byte(s, b) ==> s[i] != b,
        find_byte(s, b) == -1 ==> forall|i: int| 0 <= i < s.len() ==> s[i] != b,
    decreases s.len(),
{
    if s.len() == 0 {
    } else if s[0] == b {
    } else {
        lemma_find_byte(s.skip(1), b);
        assert forall|i: int| 0 <= i < s.len() && i < find_byte(s, b) implies s[i] != b by {
            if i > 0 {
                assert(s[i] == s.skip(1)[i - 1]);
            }
        }
        if find_byte(s, b) == -1 {
            assert forall|i: int| 0 <= i < s.len() implies s[i] != b by {
                if i > 0 {
                    assert(s[i] == s.skip(1)[i - 1]);
                }
            }
        }
    }
}

/// Once the value of a prefix of digits has outgrown a byte, the value of
/// the whole run has too.
proof fn lemma_digits_value_grows(s: Seq<u8>, i: int)
    requires
        0 <= i <= s.len(),
        digits_value(s.subrange(0, i)) > 255,
    ensures
        digits_value(s) > 255,
    decreases s.len() - i,
{
    if i == s.len() {
        assert(s.subrange(0, i) =~= s);
    } else {
        assert(s.subrange(0, i + 1).drop_last() =~= s.subrange(0, i));
        assert(s.subrange(0, i + 1).last() == s[i]);
        lemma_digits_value_grows(s, i + 1);
    }
}

fn find_first(s: &[u8], b: u8) -> (r: Option<usize>)
    ensures
        match r {
            Some(i) => find_byte(s@, b) == i as int,
            None => find_byte(s@, b) == -1,
        },
{
    let mut i: usize = 0;
    while i < s.len()
        invariant
            i <= s@.len(),
            forall|j: int| 0 <= j < i ==> s@[j] != b,
        decreases s@.len() - i,
    {
        if s[i] == b {
            proof {
                lemma_find_byte(s@, b);
            }
            return Some(i);
        }
        i = i + 1;
    }
    proof {
        lemma_find_byte(s@, b);
    }
    None
}

fn parse_seg(s: &[u8]) -> (r: Option<u8>)
    ensures
        match r {
            Some(v) => seg_ok(s@) && v as int == digits_value(s@),
            None => !seg_ok(s@),
        },
{
    if s.len() == 0 {
        return None;
    }
    let mut acc: u16 = 0;
    let mut i: usize = 0;
    while i < s.len()
        invariant
            i <= s@.len(),
            acc <= 255,
            all_digits(s@.subrange(0, i as int)),
            acc as int == digits_value(s@.subrange(0, i as int)),
        decreases s@.len() - i,
    {
        let c = s[i];
        if c < 0x30 || c > 0x39 {
            proof {
                assert(!is_digit(s@[i as int]));
            }
            return None;
        }
        let v: u16 = acc * 10 + (c - 0x30) as u16;
        proof {
            assert(s@.subrange(0, i + 1).drop_last() =~= s@.subrange(0, i as int));
            assert(s@.subrange(0, i + 1).last() == s@[i as int]);
        }
        if v > 255 {
            proof {
                lemma_digits_value_grows(s@, i + 1);
            }
            return None;
        }
        acc = v;
        i = i + 1;
    }
    proof {
        assert(s@.subrange(0, s@.len() as int) =~= s@);
    }
    Some(acc as u8)
}

fn parse_chain(s: &[u8]) -> (r: Option<Vec<u8>>)
    ensures
        match r {
            Some(v) => chain_key(s@) == Some(v@),
            None => chain_key(s@) is None,
        },
    decreases s@.len(),
{
    match find_first(s, 0x2e) {
        None => {
            match parse_seg(s) {
                Some(v) => {
                    let mut out: Vec<u8> = Vec::new();
                    out.push(v);
                    proof {
                        assert(out@ =~= seq![digits_value(s@) as u8]);
                    }
                    Some(out)
                },
                None => None,
            }
        },
        Some(d) => {
            let n = s.len();
            proof {
                lemma_find_byte(s@, 0x2e);
                assert(d < n);
            }
            let head = vstd::slice::slice_subrange(s, 0, d);
            match parse_seg(head) {
                Some(v) => {
                    let rest = vstd::slice::slice_subrange(s, d + 1, n);
                    match parse_chain(rest) {
                        Some(mut tail) => {
                            let mut out: Vec<u8> = Vec::new();
                            out.push(v);
                            out.append(&mut tail);
                            Some(out)
                        },
                        None => None,
                    }
                },
                None => None,
            }
        },
    }
}

/// Parse a location string `<busnum>-<port>[.<port>]*` into a device key.
///
/// A string that does not match the grammar, or any of whose numbers does
/// not fit in a byte, yields `None`: a non-matching location is "target
/// not found", not an error.
pub fn parse_location(location: &str) -> (r: Option<Vec<u8>>)
    ensures
        match r {
            Some(v) => loc_key(location.spec_bytes()) == Some(v@),
            None => loc_key(location.spec_bytes()) is None,
        },
{
    let s = location.as_bytes();
    match find_first(s, 0x2d) {
        None => None,
        Some(d) => {
            let n = s.len();
            proof {
                lemma_find_byte(s@, 0x2d);
                assert(d < n);
            }
            let bus = vstd::slice::slice_subrange(s, 0, d);
            match parse_seg(bus) {
                Some(v) => {
                    let rest = vstd::slice::slice_subrange(s, d + 1, n);
                    match parse_chain(rest) {
                        Some(mut chain) => {
                            let mut out: Vec<u8> = Vec::new();
                            out.push(v);
                            out.append(&mut chain);
                            Some(out)
                        },
                        None => None,
                    }
                },
                None => None,
            }
        },
    }
}

} // verus!
