//! A minimal base64 decoder for policy files fetched as base64 text, with
//! a specification-level encoder and a proof that decoding inverts it.

use vstd::prelude::*;
use vstd::string::StrSliceExecFns;
use crate::text::push_char;

verus! {

/// Position of a character in the 64-character alphabet; `'='` is not in
/// the alphabet.
pub open spec fn spec_b64_char_val(c: char) -> Option<u8> {
    let u = c as u32;
    if 65 <= u <= 90 {  // 'A'..'Z'
        Some((u - 65) as u8)
    } else if 97 <= u <= 122 {  // 'a'..'z'
        Some((u - 71) as u8)
    } else if 48 <= u <= 57 {  // '0'..'9'
        Some((u + 4) as u8)
    } else if c == '+' {
        Some(62u8)
    } else if c == '/' {
        Some(63u8)
    } else {
        None
    }
}

/// Decode value of one input character: alphabet position, with `'='`
/// standing for 0.
pub open spec fn spec_b64_val(c: char) -> Option<u8> {
    if c == '=' {
        Some(0u8)
    } else {
        spec_b64_char_val(c)
    }
}

/// The bytes of the group of four input characters at `i`: one to three
/// bytes, depending on the padding in the last two positions.
pub open spec fn spec_b64_group(s: Seq<char>, i: int) -> Option<Seq<u8>>
    recommends
        0 <= i,
        i + 4 <= s.len(),
{
    match (spec_b64_val(s[i]), spec_b64_val(s[i + 1]), spec_b64_val(s[i + 2]), spec_b64_val(
        s[i + 3],
    )) {
        (Some(a), Some(b), Some(c), Some(d)) => {
            let o1 = seq![(a << 2) | (b >> 4)];
            let o2 = if s[i + 2] != '=' {
                o1.push((b << 4) | (c >> 2))
            } else {
                o1
            };
            let o3 = if s[i + 3] != '=' {
                o2.push((c << 6) | d)
            } else {
                o2
            };
            Some(o3)
        }
        _ => None,
    }
}

/// The decoding of `s` from position `i` on, in whole groups of four; an
/// incomplete trailing group is dropped; a character outside the alphabet
/// (other than `'='`) fails the whole decode.
pub open spec fn spec_b64_decode_from(s: Seq<char>, i: int) -> Option<Seq<u8>>
    decreases s.len() - i,
{
    if i < 0 || i + 4 > s.len() {
        Some(Seq::empty())
    } else {
        match (spec_b64_group(s, i), spec_b64_decode_from(s, i + 4)) {
            (Some(g), Some(rest)) => Some(g + rest),
            _ => None,
        }
    }
}

pub open spec fn spec_b64_decode(s: Seq<char>) -> Option<Seq<u8>> {
    spec_b64_decode_from(s, 0)
}

/// Index of the first unacceptable character within the whole groups of
/// four; the end of the whole groups when all are acceptable.
pub open spec fn spec_first_bad_char(s: Seq<char>, i: int) -> int
    decreases s.len() - i,
{
    let lim = 4 * (s.len() as int / 4);
    if i < 0 || i >= lim {
        lim
    } else if spec_b64_val(s[i]) is None {
        i
    } else {
        spec_first_bad_char(s, i + 1)
    }
}

fn b64_val(c: char) -> (r: Option<u8>)
    ensures
        r == spec_b64_val(c),
{
    if c == '=' {
        return Some(0);
    }
    let u = c as u32;
    if 65 <= u && u <= 90 {
        Some((u - 65) as u8)
    } else if 97 <= u && u <= 122 {
        Some((u - 71) as u8)
    } else if 48 <= u && u <= 57 {
        Some((u + 4) as u8)
    } else if c == '+' {
        Some(62)
    } else if c == '/' {
        Some(63)
    } else {
        None
    }
}

/// Decode base64 text: standard four-character groups over the alphabet
/// `A–Z a–z 0–9 + /` with `'='` as padding; an incomplete trailing group is
/// silently dropped; any other character is a decode error naming it.
pub fn base64_decode(input: &str) -> (r: Result<Vec<u8>, String>)
    ensures
        r is Ok <==> spec_b64_decode(input@) is Some,
        r matches Ok(bytes) ==> Some(bytes@) == spec_b64_decode(input@),
        r matches Err(e) ==> ({
            let b = spec_first_bad_char(input@, 0);
            b < 4 * (input@.len() as int / 4) && e@ == "Invalid base64 character: "@.push(
                input@[b],
            )
        }),
{
    let n = input.unicode_len();
    let mut out: Vec<u8> = Vec::new();
    if n < 4 {
        proof {
            assert(spec_b64_decode_from(input@, 0) == Some(Seq::<u8>::empty()));
            assert(out@ =~= Seq::<u8>::empty());
        }
        return Ok(out);
    }
    let mut i: usize = 0;
    while i <= n - 4
        invariant
            n == input@.len(),
            n >= 4,
            0 <= i <= n,
            i % 4 == 0,
            spec_b64_decode_from(input@, 0) is Some <==> spec_b64_decode_from(
                input@,
                i as int,
            ) is Some,
            spec_b64_decode_from(input@, 0) matches Some(full) ==> (spec_b64_decode_from(
                input@,
                i as int,
            ) matches Some(rest) && full == out@ + rest),
            spec_first_bad_char(input@, 0) == spec_first_bad_char(input@, i as int),
            forall|k: int| 0 <= k < i ==> #[trigger] spec_b64_val(input@[k]) is Some,
        decreases n - i,
    {
        let ghost s = input@;
        let ghost out0 = out@;
        proof {
            assert(i < 4 * (s.len() as int / 4)) by (nonlinear_arith)
                requires
                    i % 4 == 0,
                    i + 4 <= s.len(),
                    i >= 0,
            ;
        }
        let ch0 = input.get_char(i);
        let ch1 = input.get_char(i + 1);
        let ch2 = input.get_char(i + 2);
        let ch3 = input.get_char(i + 3);
        let v0 = b64_val(ch0);
        let v1 = b64_val(ch1);
        let v2 = b64_val(ch2);
        let v3 = b64_val(ch3);
        let bad: Option<char> = match (v0, v1, v2, v3) {
            (None, _, _, _) => Some(ch0),
            (_, None, _, _) => Some(ch1),
            (_, _, None, _) => Some(ch2),
            (_, _, _, None) => Some(ch3),
            _ => None,
        };
        if let Some(bc) = bad {
            proof {
                let b = spec_first_bad_char(s, 0);
                assert(spec_first_bad_char(s, i as int) == b);
                if spec_b64_val(s[i as int]) is None {
                    assert(b == i);
                } else if spec_b64_val(s[i as int + 1]) is None {
                    assert(spec_first_bad_char(s, i as int + 1) == b);
                    assert(b == i + 1);
                } else if spec_b64_val(s[i as int + 2]) is None {
                    assert(spec_first_bad_char(s, i as int + 1) == b);
                    assert(spec_first_bad_char(s, i as int + 2) == b);
                    assert(b == i + 2);
                } else {
                    assert(spec_first_bad_char(s, i as int + 1) == b);
                    assert(spec_first_bad_char(s, i as int + 2) == b);
                    assert(spec_first_bad_char(s, i as int + 3) == b);
                    assert(b == i + 3);
                }
                assert(s[b] == bc);
                assert(spec_b64_group(s, i as int) is None);
                assert(spec_b64_decode_from(s, i as int) is None);
            }
            let mut msg = "Invalid base64 character: ".to_owned();
            push_char(&mut msg, bc);
            return Err(msg);
        }
        let a = v0.unwrap();
        let b = v1.unwrap();
        let c = v2.unwrap();
        let d = v3.unwrap();
        out.push((a << 2) | (b >> 4));
        if ch2 != '=' {
            out.push((b << 4) | (c >> 2));
        }
        if ch3 != '=' {
            out.push((c << 6) | d);
        }
        proof {
            let g = spec_b64_group(s, i as int)->Some_0;
            assert(spec_b64_group(s, i as int) is Some);
            assert(out@ =~= out0 + g);
            assert(spec_b64_decode_from(s, i as int) matches Some(ri) ==> ri == g
                + spec_b64_decode_from(s, i as int + 4)->Some_0);
            if spec_b64_decode_from(s, 0) is Some {
                let full = spec_b64_decode_from(s, 0)->Some_0;
                let rest = spec_b64_decode_from(s, i as int)->Some_0;
                let rest4 = spec_b64_decode_from(s, i as int + 4)->Some_0;
                assert(full == out0 + rest);
                assert(rest == g + rest4);
                assert(out0 + (g + rest4) =~= (out0 + g) + rest4);
            }
            assert(spec_first_bad_char(s, i as int) == spec_first_bad_char(s, i as int + 1));
            assert(spec_first_bad_char(s, i as int + 1) == spec_first_bad_char(s, i as int + 2));
            assert(spec_first_bad_char(s, i as int + 2) == spec_first_bad_char(s, i as int + 3));
            assert(spec_first_bad_char(s, i as int + 3) == spec_first_bad_char(s, i as int + 4));
        }
        i += 4;
    }
    proof {
        assert(i + 4 > n);
        assert(spec_b64_decode_from(input@, i as int) == Some(Seq::<u8>::empty()));
        assert(out@ + Seq::<u8>::empty() =~= out@);
    }
    Ok(out)
}

proof fn lemma_decode_fails_iff_bad_char_from(s: Seq<char>, i: int)
    requires
        0 <= i,
        i % 4 == 0,
    ensures
        (spec_b64_decode_from(s, i) is None) <==> spec_first_bad_char(s, i) < 4 * (
        s.len() as int / 4),
    decreases s.len() - i,
{
    let lim = 4 * (s.len() as int / 4);
    if i + 4 > s.len() {
        assert(lim <= i) by (nonlinear_arith)
            requires
                i % 4 == 0,
                i + 4 > s.len(),
                i >= 0,
                lim == 4 * (s.len() as int / 4),
        ;
        assert(spec_first_bad_char(s, i) == lim);
    } else {
        assert(i < lim) by (nonlinear_arith)
            requires
                i % 4 == 0,
                i + 4 <= s.len(),
                i >= 0,
                lim == 4 * (s.len() as int / 4),
        ;
        assert(i + 4 <= lim) by (nonlinear_arith)
            requires
                i % 4 == 0,
                i >= 0,
                i < lim,
                lim == 4 * (s.len() as int / 4),
        ;
        lemma_decode_fails_iff_bad_char_from(s, i + 4);
        if spec_b64_group(s, i) is None {
            if spec_b64_val(s[i]) is None {
                assert(spec_first_bad_char(s, i) == i);
            } else if spec_b64_val(s[i + 1]) is None {
                assert(spec_first_bad_char(s, i) == spec_first_bad_char(s, i + 1));
                assert(spec_first_bad_char(s, i + 1) == i + 1);
            } else if spec_b64_val(s[i + 2]) is None {
                assert(spec_first_bad_char(s, i) == spec_first_bad_char(s, i + 1));
                assert(spec_first_bad_char(s, i + 1) == spec_first_bad_char(s, i + 2));
                assert(spec_first_bad_char(s, i + 2) == i + 2);
            } else {
                assert(spec_first_bad_char(s, i) == spec_first_bad_char(s, i + 1));
                assert(spec_first_bad_char(s, i + 1) == spec_first_bad_char(s, i + 2));
                assert(spec_first_bad_char(s, i + 2) == spec_first_bad_char(s, i + 3));
                assert(spec_first_bad_char(s, i + 3) == i + 3);
            }
        } else {
            assert(spec_first_bad_char(s, i) == spec_first_bad_char(s, i + 1));
            assert(spec_first_bad_char(s, i + 1) == spec_first_bad_char(s, i + 2));
            assert(spec_first_bad_char(s, i + 2) == spec_first_bad_char(s, i + 3));
            assert(spec_first_bad_char(s, i + 3) == spec_first_bad_char(s, i + 4));
        }
    }
}

/// A decode fails exactly when a character that is neither in the alphabet
/// nor `'='` stands within the whole groups of four; an illegal character
/// in an incomplete trailing group is dropped with the group.
pub proof fn lemma_decode_fails_iff_bad_char(s: Seq<char>)
    ensures
        (spec_b64_decode(s) is None) <==> spec_first_bad_char(s, 0) < 4 * (s.len() as int / 4),
{
    lemma_decode_fails_iff_bad_char_from(s, 0);
}

/// The alphabet character for a six-bit value.
pub open spec fn spec_b64_chr(v: u8) -> char
    recommends
        v < 64,
{
    if v < 26 {
        ((v + 65) as char)  // 'A'..'Z'
    } else if v < 52 {
        ((v + 71) as char)  // 'a'..'z'
    } else if v < 62 {
        ((v - 4) as char)  // '0'..'9'
    } else if v == 62 {
        '+'
    } else {
        '/'
    }
}

/// Standard base64 encoding with padding: three bytes to four characters,
/// one trailing byte to two characters and `==`, two to three and `=`.
pub open spec fn spec_b64_encode(bytes: Seq<u8>) -> Seq<char>
    decreases bytes.len(),
{
    if bytes.len() == 0 {
        Seq::empty()
    } else if bytes.len() == 1 {
        let b0 = bytes[0];
        seq![spec_b64_chr(b0 >> 2), spec_b64_chr((b0 & 0x03) << 4), '=', '=']
    } else if bytes.len() == 2 {
        let b0 = bytes[0];
        let b1 = bytes[1];
        seq![
            spec_b64_chr(b0 >> 2),
            spec_b64_chr(((b0 & 0x03) << 4) | (b1 >> 4)),
            spec_b64_chr((b1 & 0x0f) << 2),
            '=',
        ]
    } else {
        let b0 = bytes[0];
        let b1 = bytes[1];
        let b2 = bytes[2];
        seq![
            spec_b64_chr(b0 >> 2),
            spec_b64_chr(((b0 & 0x03) << 4) | (b1 >> 4)),
            spec_b64_chr(((b1 & 0x0f) << 2) | (b2 >> 6)),
            spec_b64_chr(b2 & 0x3f),
        ] + spec_b64_encode(bytes.skip(3))
    }
}

proof fn lemma_chr_val(v: u8)
    requires
        v < 64,
    ensures
        spec_b64_val(spec_b64_chr(v)) == Some(v),
        spec_b64_chr(v) != '=',
{
}

proof fn lemma_decode_from_offset(s: Seq<char>, i: int)
    requires
        4 <= i,
        4 <= s.len(),
    ensures
        spec_b64_decode_from(s, i) == spec_b64_decode_from(s.skip(4), i - 4),
    decreases s.len() - i,
{
    if i + 4 > s.len() {
        assert(spec_b64_decode_from(s.skip(4), i - 4) == Some(Seq::<u8>::empty()));
    } else {
        lemma_decode_from_offset(s, i + 4);
        let t = s.skip(4);
        assert(t[i - 4] == s[i]);
        assert(t[i - 3] == s[i + 1]);
        assert(t[i - 2] == s[i + 2]);
        assert(t[i - 1] == s[i + 3]);
        assert(spec_b64_group(t, i - 4) == spec_b64_group(s, i));
    }
}

/// Decoding inverts encoding: standard base64 text produced from any byte
/// sequence decodes back to exactly those bytes.
pub proof fn lemma_b64_round_trip(bytes: Seq<u8>)
    ensures
        spec_b64_decode(spec_b64_encode(bytes)) == Some(bytes),
    decreases bytes.len(),
{
    let enc = spec_b64_encode(bytes);
    if bytes.len() == 0 {
        assert(spec_b64_decode(enc) == Some(Seq::<u8>::empty()));
        assert(bytes =~= Seq::<u8>::empty());
    } else if bytes.len() == 1 {
        let b0 = bytes[0];
        let a = b0 >> 2;
        let b = (b0 & 0x03) << 4;
        lemma_chr_val_bounds_1(b0);
        lemma_chr_val(a);
        lemma_chr_val(b);
        assert((a << 2) | (b >> 4) == b0) by (bit_vector)
            requires
                a == b0 >> 2,
                b == (b0 & 0x03) << 4,
        ;
        assert(spec_b64_group(enc, 0) == Some(seq![b0]));
        assert(spec_b64_decode_from(enc, 4) == Some(Seq::<u8>::empty()));
        assert(seq![b0] + Seq::<u8>::empty() =~= bytes);
    } else if bytes.len() == 2 {
        let b0 = bytes[0];
        let b1 = bytes[1];
        let a = b0 >> 2;
        let b = ((b0 & 0x03) << 4) | (b1 >> 4);
        let c = (b1 & 0x0f) << 2;
        lemma_chr_val_bounds_2(b0, b1);
        lemma_chr_val(a);
        lemma_chr_val(b);
        lemma_chr_val(c);
        assert((a << 2) | (b >> 4) == b0 && (b << 4) | (c >> 2) == b1) by (bit_vector)
            requires
                a == b0 >> 2,
                b == ((b0 & 0x03) << 4) | (b1 >> 4),
                c == (b1 & 0x0f) << 2,
        ;
        assert(spec_b64_group(enc, 0) == Some(seq![b0, b1]));
        assert(spec_b64_decode_from(enc, 4) == Some(Seq::<u8>::empty()));
        assert(seq![b0, b1] + Seq::<u8>::empty() =~= bytes);
    } else {
        let b0 = bytes[0];
        let b1 = bytes[1];
        let b2 = bytes[2];
        let a = b0 >> 2;
        let b = ((b0 & 0x03) << 4) | (b1 >> 4);
        let c = ((b1 & 0x0f) << 2) | (b2 >> 6);
        let d = b2 & 0x3f;
        lemma_chr_val_bounds_3(b0, b1, b2);
        lemma_chr_val(a);
        lemma_chr_val(b);
        lemma_chr_val(c);
        lemma_chr_val(d);
        assert((a << 2) | (b >> 4) == b0 && (b << 4) | (c >> 2) == b1 && (c << 6) | d == b2)
            by (bit_vector)
            requires
                a == b0 >> 2,
                b == ((b0 & 0x03) << 4) | (b1 >> 4),
                c == ((b1 & 0x0f) << 2) | (b2 >> 6),
                d == b2 & 0x3f,
        ;
        lemma_b64_round_trip(bytes.skip(3));
        assert(spec_b64_group(enc, 0) == Some(seq![b0, b1, b2]));
        lemma_decode_from_offset(enc, 4);
        assert(enc.skip(4) =~= spec_b64_encode(bytes.skip(3)));
        assert(spec_b64_decode_from(enc, 4) == Some(bytes.skip(3)));
        assert(seq![b0, b1, b2] + bytes.skip(3) =~= bytes);
    }
}

proof fn lemma_chr_val_bounds_1(b0: u8)
    ensures
        b0 >> 2 < 64,
        (b0 & 0x03) << 4 < 64,
{
    assert(b0 >> 2 < 64 && (b0 & 0x03) << 4 < 64) by (bit_vector);
}

proof fn lemma_chr_val_bounds_2(b0: u8, b1: u8)
    ensures
        b0 >> 2 < 64,
        ((b0 & 0x03) << 4) | (b1 >> 4) < 64,
        (b1 & 0x0f) << 2 < 64,
{
    assert(b0 >> 2 < 64 && ((b0 & 0x03) << 4) | (b1 >> 4) < 64 && (b1 & 0x0f) << 2 < 64)
        by (bit_vector);
}

proof fn lemma_chr_val_bounds_3(b0: u8, b1: u8, b2: u8)
    ensures
        b0 >> 2 < 64,
        ((b0 & 0x03) << 4) | (b1 >> 4) < 64,
        ((b1 & 0x0f) << 2) | (b2 >> 6) < 64,
        b2 & 0x3f < 64,
{
    assert(b0 >> 2 < 64 && ((b0 & 0x03) << 4) | (b1 >> 4) < 64 && ((b1 & 0x0f) << 2) | (b2 >> 6)
        < 64 && b2 & 0x3f < 64) by (bit_vector);
}

} // verus!
