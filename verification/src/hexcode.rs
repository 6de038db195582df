//! Printable text encoding of the wire bytes: lower-case hexadecimal.
//! Verified both ways, with a proved round trip; any reversible printable
//! encoding would serve the codec, and this one keeps blobs line-safe and
//! whitespace-free.

use vstd::prelude::*;

verus! {

/// The byte of the lower-case hex digit for a value below 16.
pub open spec fn nib_byte(v: u8) -> u8 {
    if v < 10 {
        (v + 48) as u8
    } else {
        (v + 87) as u8
    }
}

/// The value of one hex-digit byte; digits and lower-case letters only.
pub open spec fn nib_val(c: u8) -> Option<u8> {
    if 48 <= c && c <= 57 {
        Some((c - 48) as u8)
    } else if 97 <= c && c <= 102 {
        Some((c - 87) as u8)
    } else {
        None
    }
}

/// The hex text of a byte string: two digits per byte, high nibble first.
pub open spec fn hex_of(b: Seq<u8>) -> Seq<u8>
    decreases b.len(),
{
    if b.len() == 0 {
        Seq::empty()
    } else {
        hex_of(b.drop_last()) + seq![
            nib_byte((b.last() / 16) as u8),
            nib_byte((b.last() % 16) as u8),
        ]
    }
}

/// The bytes a hex text stands for, if every character is a lower-case hex
/// digit and the length is even; nothing otherwise.
pub open spec fn unhex(s: Seq<u8>) -> Option<Seq<u8>>
    decreases s.len(),
{
    if s.len() % 2 != 0 {
        None
    } else if s.len() == 0 {
        Some(Seq::empty())
    } else {
        match unhex(s.drop_last().drop_last()) {
            None => None,
            Some(b) => match (nib_val(s[s.len() - 2]), nib_val(s[s.len() - 1])) {
                (Some(h), Some(l)) => Some(b.push((h * 16 + l) as u8)),
                _ => None,
            },
        }
    }
}

/// Every byte of the text is a hex digit: printable, no whitespace.
pub open spec fn hex_text(s: Seq<u8>) -> bool {
    forall|k: int| 0 <= k < s.len() ==> (#[trigger] nib_val(s[k])) is Some
}

pub proof fn lemma_hex_of_len(b: Seq<u8>)
    ensures
        hex_of(b).len() == 2 * b.len(),
    decreases b.len(),
{
    if b.len() > 0 {
        lemma_hex_of_len(b.drop_last());
    }
}

pub proof fn lemma_hex_of_text(b: Seq<u8>)
    ensures
        hex_text(hex_of(b)),
    decreases b.len(),
{
    if b.len() > 0 {
        lemma_hex_of_text(b.drop_last());
        lemma_hex_of_len(b.drop_last());
        let s = hex_of(b);
        assert forall|k: int| 0 <= k < s.len() implies (#[trigger] nib_val(s[k])) is Some by {
            if k < s.len() - 2 {
                assert(s[k] == hex_of(b.drop_last())[k]);
            }
        }
    }
}

/// Decoding inverts encoding: the codec's round trip rests on this.
pub proof fn lemma_unhex_hex_of(b: Seq<u8>)
    ensures
        unhex(hex_of(b)) == Some(b),
    decreases b.len(),
{
    if b.len() == 0 {
        assert(b =~= Seq::<u8>::empty());
    } else {
        let b0 = b.drop_last();
        lemma_unhex_hex_of(b0);
        lemma_hex_of_len(b0);
        let s = hex_of(b);
        let hi = (b.last() / 16) as u8;
        let lo = (b.last() % 16) as u8;
        assert(s.drop_last().drop_last() =~= hex_of(b0));
        assert(s[s.len() - 2] == nib_byte(hi));
        assert(s[s.len() - 1] == nib_byte(lo));
        assert(nib_val(nib_byte(hi)) == Some(hi));
        assert(nib_val(nib_byte(lo)) == Some(lo));
        assert(hi * 16 + lo == b.last()) by {
            vstd::arithmetic::div_mod::lemma_fundamental_div_mod(b.last() as int, 16);
        }
        assert(b0.push(b.last()) =~= b);
    }
}

/// If some aligned pair of the text is not two hex digits, the text decodes
/// to nothing.
pub proof fn lemma_unhex_bad_pair(s: Seq<u8>, k: int)
    requires
        s.len() % 2 == 0,
        0 <= k,
        2 * k + 1 < s.len(),
        nib_val(s[2 * k]) is None || nib_val(s[2 * k + 1]) is None,
    ensures
        unhex(s) is None,
    decreases s.len(),
{
    if 2 * k + 2 < s.len() {
        let s0 = s.drop_last().drop_last();
        assert(s0[2 * k] == s[2 * k]);
        assert(s0[2 * k + 1] == s[2 * k + 1]);
        lemma_unhex_bad_pair(s0, k);
    }
}

fn hex_digit(v: u8) -> (r: u8)
    requires
        v < 16,
    ensures
        r == nib_byte(v),
{
    if v < 10 {
        v + 48
    } else {
        v + 87
    }
}

/// Encode bytes as lower-case hex text.
pub fn hex_encode(v: &Vec<u8>) -> (r: Vec<u8>)
    requires
        2 * v@.len() <= usize::MAX,
    ensures
        r@ == hex_of(v@),
{
    let mut out: Vec<u8> = Vec::new();
    let mut i: usize = 0;
    while i < v.len()
        invariant
            i <= v@.len(),
            2 * v@.len() <= usize::MAX,
            out@ == hex_of(v@.take(i as int)),
        decreases v@.len() - i,
    {
        let byte = v[i];
        out.push(hex_digit(byte / 16));
        out.push(hex_digit(byte % 16));
        proof {
            let t = v@.take(i as int + 1);
            assert(t.drop_last() =~= v@.take(i as int));
            assert(t.last() == v@[i as int]);
        }
        i = i + 1;
    }
    proof {
        assert(v@.take(v@.len() as int) =~= v@);
    }
    out
}

fn digit_value(c: u8) -> (r: Option<u8>)
    ensures
        r == nib_val(c),
{
    if 48 <= c && c <= 57 {
        Some(c - 48)
    } else if 97 <= c && c <= 102 {
        Some(c - 87)
    } else {
        None
    }
}

/// Decode lower-case hex text back to bytes; rejects odd lengths and any
/// character outside the alphabet.
pub fn hex_decode(s: &Vec<u8>) -> (r: Option<Vec<u8>>)
    ensures
        (match r {
            Some(b) => unhex(s@) == Some(b@),
            None => unhex(s@) is None,
        }),
{
    if s.len() % 2 != 0 {
        return None;
    }
    let pairs = s.len() / 2;
    let mut out: Vec<u8> = Vec::new();
    let mut k: usize = 0;
    while k < pairs
        invariant
            k <= pairs,
            pairs == s@.len() / 2,
            2 * pairs <= usize::MAX,
            s@.len() % 2 == 0,
            unhex(s@.take(2 * k as int)) == Some(out@),
        decreases pairs - k,
    {
        let h = match digit_value(s[2 * k]) {
            Some(v) => v,
            None => {
                proof {
                    lemma_unhex_bad_pair(s@, k as int);
                }
                return None;
            },
        };
        let l = match digit_value(s[2 * k + 1]) {
            Some(v) => v,
            None => {
                proof {
                    lemma_unhex_bad_pair(s@, k as int);
                }
                return None;
            },
        };
        out.push(h * 16 + l);
        proof {
            let t = s@.take(2 * (k as int) + 2);
            assert(t.drop_last().drop_last() =~= s@.take(2 * k as int));
            assert(t[t.len() - 2] == s@[2 * k as int]);
            assert(t[t.len() - 1] == s@[2 * k as int + 1]);
        }
        k = k + 1;
    }
    proof {
        assert(s@.take(2 * pairs as int) =~= s@);
    }
    Some(out)
}

} // verus!
