//! Hexadecimal decoding of preimages and payment hashes.
//!
//! The payment-node RPC hands preimages and payment hashes around as hex
//! strings; the engine turns them back into bytes before it acts on them.
//! Decoding is total on well-formed hex of even length and rejects
//! everything else.

use vstd::prelude::*;
use vstd::string::StringSliceAdditionalSpecFns;

verus! {

/// Value of one hex digit byte (`0-9`, `a-f`, `A-F`), or `None`.
pub open spec fn hex_digit_value(b: u8) -> Option<u8> {
    if 48 <= b && b <= 57 {
        Some((b - 48) as u8)
    } else if 97 <= b && b <= 102 {
        Some((b - 87) as u8)
    } else if 65 <= b && b <= 70 {
        Some((b - 55) as u8)
    } else {
        None
    }
}

/// The bytes a hex string (as its UTF-8 bytes) stands for: two digits per
/// byte, high digit first. `None` on odd length or any non-digit.
pub open spec fn spec_hex_decode(s: Seq<u8>) -> Option<Seq<u8>>
    decreases s.len(),
{
    if s.len() == 0 {
        Some(Seq::empty())
    } else if s.len() == 1 {
        None
    } else {
        match (hex_digit_value(s[0]), hex_digit_value(s[1])) {
            (Some(h), Some(l)) => match spec_hex_decode(s.skip(2)) {
                Some(t) => Some(seq![(16 * h + l) as u8] + t),
                None => None,
            },
            _ => None,
        }
    }
}

/// A decode yields exactly one byte for each digit pair.
pub proof fn lemma_hex_decode_len(s: Seq<u8>, b: Seq<u8>)
    requires
        spec_hex_decode(s) == Some(b),
    ensures
        b.len() * 2 == s.len(),
    decreases s.len(),
{
    if s.len() >= 2 {
        let t = spec_hex_decode(s.skip(2)).unwrap();
        lemma_hex_decode_len(s.skip(2), t);
    }
}

proof fn lemma_hex_decode_odd(s: Seq<u8>)
    requires
        s.len() % 2 == 1,
    ensures
        spec_hex_decode(s) is None,
    decreases s.len(),
{
    if s.len() >= 2 {
        lemma_hex_decode_odd(s.skip(2));
    }
}

fn hex_digit(b: u8) -> (r: Option<u8>)
    ensures
        r == hex_digit_value(b),
{
    if 48 <= b && b <= 57 {
        Some(b - 48)
    } else if 97 <= b && b <= 102 {
        Some(b - 87)
    } else if 65 <= b && b <= 70 {
        Some(b - 55)
    } else {
        None
    }
}

/// Decode a hex string to the bytes it stands for, or `None` where it is
/// not well-formed hex of even length.
pub fn hex_decode(s: &str) -> (r: Option<Vec<u8>>)
    ensures
        (match r {
            Some(b) => spec_hex_decode(s.spec_bytes()) == Some(b@),
            None => spec_hex_decode(s.spec_bytes()) is None,
        }),
{
    let bytes = s.as_bytes();
    if bytes.len() % 2 != 0 {
        proof {
            lemma_hex_decode_odd(bytes@);
        }
        return None;
    }
    let mut out: Vec<u8> = Vec::new();
    let mut i: usize = 0;
    proof {
        assert(bytes@.skip(0) =~= bytes@);
        assert(forall|t: Seq<u8>| (Seq::<u8>::empty() + t) =~= t);
    }
    while i < bytes.len()
        invariant
            bytes@ == s.spec_bytes(),
            i % 2 == 0,
            i <= bytes.len(),
            bytes.len() % 2 == 0,
            (spec_hex_decode(bytes@) == match spec_hex_decode(bytes@.skip(i as int)) {
                Some(t) => Some(out@ + t),
                None => None::<Seq<u8>>,
            }),
        decreases bytes.len() - i,
    {
        let h = match hex_digit(bytes[i]) {
            Some(h) => h,
            None => {
                proof {
                    assert(spec_hex_decode(bytes@.skip(i as int)) is None);
                }
                return None;
            },
        };
        let l = match hex_digit(bytes[i + 1]) {
            Some(l) => l,
            None => {
                proof {
                    assert(spec_hex_decode(bytes@.skip(i as int)) is None);
                }
                return None;
            },
        };
        let ghost pre = out@;
        out.push(16 * h + l);
        i = i + 2;
        proof {
            assert(bytes@.skip(i - 2).skip(2) =~= bytes@.skip(i as int));
            assert(forall|t: Seq<u8>| (pre + (seq![(16 * hex_digit_value(bytes@[i - 2]).unwrap()
                + hex_digit_value(bytes@[i - 1]).unwrap()) as u8] + t)) =~= (out@ + t));
        }
    }
    proof {
        assert(bytes@.skip(i as int) =~= Seq::<u8>::empty());
        assert(out@ + Seq::<u8>::empty() =~= out@);
    }
    Some(out)
}

} // verus!
