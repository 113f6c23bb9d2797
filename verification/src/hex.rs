//! Hex coding of byte strings, as the wire protocol uses it: a mining
//! target's `key` and `header` travel as hex text. Decoding accepts both
//! letter cases and rejects odd-length or non-digit input; encoding emits
//! lower case.

use vstd::prelude::*;

verus! {

/// True of the ASCII bytes that stand for a hex digit, either case.
pub open spec fn is_hex_digit(b: u8) -> bool {
    (0x30 <= b && b <= 0x39) || (0x41 <= b && b <= 0x46) || (0x61 <= b && b <= 0x66)
}

/// The value a hex digit byte stands for.
pub open spec fn hex_val(b: u8) -> int {
    if 0x30 <= b && b <= 0x39 {
        b - 0x30
    } else if 0x41 <= b && b <= 0x46 {
        b - 0x41 + 10
    } else {
        b - 0x61 + 10
    }
}

/// The lower-case hex digit byte for a value below sixteen.
pub open spec fn hex_digit(v: u8) -> u8 {
    if v < 10 {
        (0x30 + v) as u8
    } else {
        (0x57 + v) as u8
    }
}

/// The bytes a hex string stands for: `None` on odd length or a non-digit.
pub open spec fn bytes_of_hex(s: Seq<u8>) -> Option<Seq<u8>>
    decreases s.len(),
{
    if s.len() == 0 {
        Some(Seq::empty())
    } else if s.len() == 1 {
        None
    } else if !is_hex_digit(s[0]) || !is_hex_digit(s[1]) {
        None
    } else {
        match bytes_of_hex(s.subrange(2, s.len() as int)) {
            None => None,
            Some(rest) => Some(seq![(hex_val(s[0]) * 16 + hex_val(s[1])) as u8] + rest),
        }
    }
}

/// The lower-case hex encoding of a byte sequence.
pub open spec fn hex_of_bytes(b: Seq<u8>) -> Seq<u8>
    decreases b.len(),
{
    if b.len() == 0 {
        Seq::empty()
    } else {
        seq![hex_digit(b[0] / 16), hex_digit(b[0] % 16)] + hex_of_bytes(b.drop_first())
    }
}

pub(crate) fn hex_digit_byte(v: u8) -> (r: u8)
    requires
        v < 16,
    ensures
        r == hex_digit(v),
{
    if v < 10 {
        0x30 + v
    } else {
        0x57 + v
    }
}

fn is_hex_digit_byte(b: u8) -> (r: bool)
    ensures
        r == is_hex_digit(b),
{
    (0x30 <= b && b <= 0x39) || (0x41 <= b && b <= 0x46) || (0x61 <= b && b <= 0x66)
}

fn hex_val_byte(b: u8) -> (r: u8)
    requires
        is_hex_digit(b),
    ensures
        r == hex_val(b),
{
    if 0x30 <= b && b <= 0x39 {
        b - 0x30
    } else if 0x41 <= b && b <= 0x46 {
        b - 0x41 + 10
    } else {
        b - 0x61 + 10
    }
}

/// Decodes a hex string to the bytes it stands for; `None` on odd length
/// or a byte that is no hex digit.
pub fn hex_decode(s: &[u8]) -> (r: Option<Vec<u8>>)
    ensures
        match r {
            Some(v) => bytes_of_hex(s@) == Some(v@),
            None => bytes_of_hex(s@) is None,
        },
{
    let n = s.len();
    let mut out: Vec<u8> = Vec::new();
    let mut i: usize = 0;
    proof {
        assert(s@.subrange(0, n as int) =~= s@);
        if let Some(rest) = bytes_of_hex(s@) {
            assert(Seq::<u8>::empty() + rest =~= rest);
        }
    }
    while i + 1 < n
        invariant
            i <= n,
            i % 2 == 0,
            n == s@.len(),
            bytes_of_hex(s@) == match bytes_of_hex(s@.subrange(i as int, n as int)) {
                None => None::<Seq<u8>>,
                Some(rest) => Some(out@ + rest),
            },
        decreases n - i,
    {
        let hi = s[i];
        let lo = s[i + 1];
        let ghost tail = s@.subrange(i as int, n as int);
        assert(tail[0] == s@[i as int] && tail[1] == s@[i + 1]);
        if !is_hex_digit_byte(hi) || !is_hex_digit_byte(lo) {
            return None;
        }
        assert(tail.subrange(2, tail.len() as int) =~= s@.subrange(i + 2, n as int));
        let b = hex_val_byte(hi) * 16 + hex_val_byte(lo);
        out.push(b);
        proof {
            if let Some(rest) = bytes_of_hex(s@.subrange(i + 2, n as int)) {
                assert(out@ + rest =~= out@.drop_last() + (seq![b] + rest));
            }
        }
        i = i + 2;
    }
    if i < n {
        assert(s@.subrange(i as int, n as int).len() == 1);
        return None;
    }
    assert(s@.subrange(i as int, n as int) =~= Seq::empty());
    assert(out@ + Seq::<u8>::empty() =~= out@);
    Some(out)
}

proof fn lemma_hex_of_bytes_push(b: Seq<u8>, x: u8)
    ensures
        hex_of_bytes(b.push(x)) == hex_of_bytes(b) + seq![
            hex_digit(x / 16),
            hex_digit(x % 16),
        ],
    decreases b.len(),
{
    if b.len() == 0 {
        assert(b.push(x)[0] == x);
        assert(b.push(x).drop_first() =~= Seq::<u8>::empty());
        assert(hex_of_bytes(Seq::<u8>::empty()) =~= Seq::<u8>::empty());
        assert(hex_of_bytes(b) =~= Seq::<u8>::empty());
        assert(hex_of_bytes(b.push(x)) =~= hex_of_bytes(b) + seq![
            hex_digit(x / 16),
            hex_digit(x % 16),
        ]);
    } else {
        assert(b.push(x)[0] == b[0]);
        assert(b.push(x).drop_first() =~= b.drop_first().push(x));
        lemma_hex_of_bytes_push(b.drop_first(), x);
        assert(hex_of_bytes(b.push(x)) =~= hex_of_bytes(b) + seq![
            hex_digit(x / 16),
            hex_digit(x % 16),
        ]);
    }
}

/// Encodes bytes as lower-case hex text.
pub fn hex_encode(b: &[u8]) -> (r: Vec<u8>)
    ensures
        r@ == hex_of_bytes(b@),
{
    let n = b.len();
    let mut out: Vec<u8> = Vec::new();
    let mut i: usize = 0;
    while i < n
        invariant
            i <= n,
            n == b@.len(),
            out@ == hex_of_bytes(b@.take(i as int)),
        decreases n - i,
    {
        let x = b[i];
        out.push(hex_digit_byte(x / 16));
        out.push(hex_digit_byte(x % 16));
        proof {
            lemma_hex_of_bytes_push(b@.take(i as int), x);
            assert(b@.take(i as int).push(x) =~= b@.take(i + 1));
        }
        i = i + 1;
    }
    assert(b@.take(n as int) =~= b@);
    out
}

/// A hex string of odd length stands for no bytes: it is rejected.
pub proof fn lemma_odd_length_rejected(s: Seq<u8>)
    requires
        s.len() % 2 == 1,
    ensures
        bytes_of_hex(s) is None,
    decreases s.len(),
{
    if s.len() > 1 && is_hex_digit(s[0]) && is_hex_digit(s[1]) {
        lemma_odd_length_rejected(s.subrange(2, s.len() as int));
    }
}

/// A string holding any byte that is no hex digit stands for no bytes:
/// it is rejected.
pub proof fn lemma_non_digit_rejected(s: Seq<u8>, i: int)
    requires
        0 <= i < s.len(),
        !is_hex_digit(s[i]),
    ensures
        bytes_of_hex(s) is None,
    decreases s.len(),
{
    if s.len() > 1 && is_hex_digit(s[0]) && is_hex_digit(s[1]) {
        assert(s.subrange(2, s.len() as int)[i - 2] == s[i]);
        lemma_non_digit_rejected(s.subrange(2, s.len() as int), i - 2);
    }
}

/// Hex round trip: decoding the encoding of any byte sequence gives the
/// sequence back.
pub proof fn lemma_hex_round_trip(b: Seq<u8>)
    ensures
        bytes_of_hex(hex_of_bytes(b)) == Some(b),
    decreases b.len(),
{
    if b.len() == 0 {
        assert(bytes_of_hex(hex_of_bytes(b)) == Some(Seq::<u8>::empty()));
        assert(b =~= Seq::<u8>::empty());
    } else {
        let s = hex_of_bytes(b);
        let d1 = hex_digit(b[0] / 16);
        let d2 = hex_digit(b[0] % 16);
        assert(s[0] == d1 && s[1] == d2);
        assert(s.subrange(2, s.len() as int) =~= hex_of_bytes(b.drop_first()));
        lemma_hex_round_trip(b.drop_first());
        assert(hex_val(d1) == b[0] / 16 && hex_val(d2) == b[0] % 16);
        assert((b[0] / 16) * 16 + b[0] % 16 == b[0]) by (nonlinear_arith);
        assert(seq![b[0]] + b.drop_first() =~= b);
    }
}

} // verus!
