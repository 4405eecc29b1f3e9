//! Canonical textual form of a fingerprint: base64 with the standard
//! alphabet and no padding. The encoding is length-preserving and
//! reversible, so equal fingerprints have equal text and unequal ones
//! differ.

use vstd::prelude::*;

verus! {

/// Ascii code of the alphabet character for one six-bit value:
/// `A`-`Z`, `a`-`z`, `0`-`9`, `+`, `/`.
pub open spec fn b64_ascii(v: u8) -> u8
    recommends
        v < 64,
{
    if v < 26 {
        (65 + v) as u8
    } else if v < 52 {
        (97 + (v - 26)) as u8
    } else if v < 62 {
        (48 + (v - 52)) as u8
    } else if v == 62 {
        43
    } else {
        47
    }
}

/// Base64 text of a byte sequence, as ascii codes: each full group of
/// three bytes becomes four characters; a trailing byte becomes two and
/// a trailing pair three, with no padding.
pub open spec fn base64_ascii_of(s: Seq<u8>) -> Seq<u8>
    decreases s.len(),
{
    if s.len() >= 3 {
        seq![
            b64_ascii(s[0] >> 2),
            b64_ascii(((s[0] & 3) << 4) | (s[1] >> 4)),
            b64_ascii(((s[1] & 15) << 2) | (s[2] >> 6)),
            b64_ascii(s[2] & 63),
        ] + base64_ascii_of(s.skip(3))
    } else if s.len() == 2 {
        seq![
            b64_ascii(s[0] >> 2),
            b64_ascii(((s[0] & 3) << 4) | (s[1] >> 4)),
            b64_ascii((s[1] & 15) << 2),
        ]
    } else if s.len() == 1 {
        seq![b64_ascii(s[0] >> 2), b64_ascii((s[0] & 3) << 4)]
    } else {
        Seq::empty()
    }
}

/// The characters whose codes the ascii sequence holds.
pub open spec fn ascii_chars(s: Seq<u8>) -> Seq<char> {
    s.map_values(|b: u8| b as char)
}

/// Base64 text of a byte sequence, as the view of the returned `String`.
pub open spec fn base64_of(s: Seq<u8>) -> Seq<char> {
    ascii_chars(base64_ascii_of(s))
}

/// Length of the base64 text of `n` bytes: four characters for each full
/// group of three, and one more character than the remainder for a
/// trailing partial group.
pub open spec fn base64_len(n: nat) -> nat
    decreases n,
{
    if n >= 3 {
        4 + base64_len((n - 3) as nat)
    } else if n == 2 {
        3
    } else if n == 1 {
        2
    } else {
        0
    }
}

/// The text's length is a function of the byte length alone, so all
/// fingerprints of one configuration have texts of one length.
pub proof fn lemma_base64_text_len(s: Seq<u8>)
    ensures
        base64_ascii_of(s).len() == base64_len(s.len()),
    decreases s.len(),
{
    if s.len() >= 3 {
        lemma_base64_text_len(s.skip(3));
    }
}

proof fn lemma_base64_len_mono(n1: nat, n2: nat)
    requires
        n1 < n2,
    ensures
        base64_len(n1) < base64_len(n2),
    decreases n2,
{
    if n2 >= 3 && n1 >= 3 {
        lemma_base64_len_mono((n1 - 3) as nat, (n2 - 3) as nat);
    }
}

proof fn lemma_b64_ascii_injective(x: u8, y: u8)
    requires
        x < 64,
        y < 64,
        b64_ascii(x) == b64_ascii(y),
    ensures
        x == y,
{
}

/// Relies on `String::from_utf8`: ascii bytes are valid UTF-8 and decode
/// to the string whose characters are exactly those bytes.
#[verifier::external_body]
fn ascii_to_string(b: Vec<u8>) -> (r: String)
    requires
        forall|i: int| 0 <= i < b@.len() ==> b@[i] < 128,
    ensures
        r@ == ascii_chars(b@),
{
    match String::from_utf8(b) {
        Ok(s) => s,
        Err(_) => String::new(),
    }
}

/// Ascii code of the alphabet character for one six-bit value.
fn b64_ascii_byte(v: u8) -> (r: u8)
    requires
        v < 64,
    ensures
        r == b64_ascii(v),
{
    if v < 26 {
        65 + v
    } else if v < 52 {
        97 + (v - 26)
    } else if v < 62 {
        48 + (v - 52)
    } else if v == 62 {
        43
    } else {
        47
    }
}

proof fn lemma_base64_ascii_step(s: Seq<u8>, i: int)
    requires
        0 <= i,
        i + 3 <= s.len(),
    ensures
        base64_ascii_of(s.skip(i)) == seq![
            b64_ascii(s[i] >> 2),
            b64_ascii(((s[i] & 3) << 4) | (s[i + 1] >> 4)),
            b64_ascii(((s[i + 1] & 15) << 2) | (s[i + 2] >> 6)),
            b64_ascii(s[i + 2] & 63),
        ] + base64_ascii_of(s.skip(i + 3)),
{
    let t = s.skip(i);
    assert(t.len() >= 3);
    assert(t[0] == s[i]);
    assert(t[1] == s[i + 1]);
    assert(t[2] == s[i + 2]);
    assert(t.skip(3) =~= s.skip(i + 3));
}

/// Sextet values are below 64, so the alphabet lookups are in range.
proof fn lemma_sextets_in_range(b0: u8, b1: u8, b2: u8)
    ensures
        (b0 >> 2) < 64,
        (((b0 & 3) << 4) | (b1 >> 4)) < 64,
        (((b1 & 15) << 2) | (b2 >> 6)) < 64,
        (b2 & 63) < 64,
        ((b0 & 3) << 4) < 64,
        ((b1 & 15) << 2) < 64,
{
    assert((b0 >> 2) < 64 && (((b0 & 3) << 4) | (b1 >> 4)) < 64 && (((b1 & 15) << 2) | (b2 >> 6))
        < 64 && (b2 & 63) < 64 && ((b0 & 3) << 4) < 64 && ((b1 & 15) << 2) < 64) by (bit_vector);
}

/// The encoding is reversible: distinct byte sequences have distinct
/// texts.
pub proof fn lemma_base64_injective(s1: Seq<u8>, s2: Seq<u8>)
    requires
        base64_ascii_of(s1) == base64_ascii_of(s2),
    ensures
        s1 == s2,
    decreases s1.len(),
{
    lemma_base64_text_len(s1);
    lemma_base64_text_len(s2);
    if s1.len() < s2.len() {
        lemma_base64_len_mono(s1.len(), s2.len());
    }
    if s2.len() < s1.len() {
        lemma_base64_len_mono(s2.len(), s1.len());
    }
    if s1.len() == 0 {
        assert(s1 =~= s2);
    } else if s1.len() == 1 {
        let x = s1[0];
        let y = s2[0];
        lemma_sextets_in_range(x, 0, 0);
        lemma_sextets_in_range(y, 0, 0);
        assert(base64_ascii_of(s1)[0] == b64_ascii(x >> 2));
        assert(base64_ascii_of(s1)[1] == b64_ascii((x & 3) << 4));
        assert(base64_ascii_of(s2)[0] == b64_ascii(y >> 2));
        assert(base64_ascii_of(s2)[1] == b64_ascii((y & 3) << 4));
        lemma_b64_ascii_injective(x >> 2, y >> 2);
        lemma_b64_ascii_injective((x & 3) << 4, (y & 3) << 4);
        assert(x == y) by (bit_vector)
            requires
                x >> 2 == y >> 2,
                (x & 3) << 4 == (y & 3) << 4,
        ;
        assert(s1 =~= s2);
    } else if s1.len() == 2 {
        let x0 = s1[0];
        let x1 = s1[1];
        let y0 = s2[0];
        let y1 = s2[1];
        lemma_sextets_in_range(x0, x1, 0);
        lemma_sextets_in_range(y0, y1, 0);
        assert(base64_ascii_of(s1)[0] == b64_ascii(x0 >> 2));
        assert(base64_ascii_of(s1)[1] == b64_ascii(((x0 & 3) << 4) | (x1 >> 4)));
        assert(base64_ascii_of(s1)[2] == b64_ascii((x1 & 15) << 2));
        assert(base64_ascii_of(s2)[0] == b64_ascii(y0 >> 2));
        assert(base64_ascii_of(s2)[1] == b64_ascii(((y0 & 3) << 4) | (y1 >> 4)));
        assert(base64_ascii_of(s2)[2] == b64_ascii((y1 & 15) << 2));
        lemma_b64_ascii_injective(x0 >> 2, y0 >> 2);
        lemma_b64_ascii_injective(((x0 & 3) << 4) | (x1 >> 4), ((y0 & 3) << 4) | (y1 >> 4));
        lemma_b64_ascii_injective((x1 & 15) << 2, (y1 & 15) << 2);
        assert(x0 == y0 && x1 == y1) by (bit_vector)
            requires
                x0 >> 2 == y0 >> 2,
                ((x0 & 3) << 4) | (x1 >> 4) == ((y0 & 3) << 4) | (y1 >> 4),
                (x1 & 15) << 2 == (y1 & 15) << 2,
        ;
        assert(s1 =~= s2);
    } else {
        let x0 = s1[0];
        let x1 = s1[1];
        let x2 = s1[2];
        let y0 = s2[0];
        let y1 = s2[1];
        let y2 = s2[2];
        lemma_sextets_in_range(x0, x1, x2);
        lemma_sextets_in_range(y0, y1, y2);
        assert(base64_ascii_of(s1)[0] == b64_ascii(x0 >> 2));
        assert(base64_ascii_of(s1)[1] == b64_ascii(((x0 & 3) << 4) | (x1 >> 4)));
        assert(base64_ascii_of(s1)[2] == b64_ascii(((x1 & 15) << 2) | (x2 >> 6)));
        assert(base64_ascii_of(s1)[3] == b64_ascii(x2 & 63));
        assert(base64_ascii_of(s2)[0] == b64_ascii(y0 >> 2));
        assert(base64_ascii_of(s2)[1] == b64_ascii(((y0 & 3) << 4) | (y1 >> 4)));
        assert(base64_ascii_of(s2)[2] == b64_ascii(((y1 & 15) << 2) | (y2 >> 6)));
        assert(base64_ascii_of(s2)[3] == b64_ascii(y2 & 63));
        lemma_b64_ascii_injective(x0 >> 2, y0 >> 2);
        lemma_b64_ascii_injective(((x0 & 3) << 4) | (x1 >> 4), ((y0 & 3) << 4) | (y1 >> 4));
        lemma_b64_ascii_injective(((x1 & 15) << 2) | (x2 >> 6), ((y1 & 15) << 2) | (y2 >> 6));
        lemma_b64_ascii_injective(x2 & 63, y2 & 63);
        assert(x0 == y0 && x1 == y1 && x2 == y2) by (bit_vector)
            requires
                x0 >> 2 == y0 >> 2,
                ((x0 & 3) << 4) | (x1 >> 4) == ((y0 & 3) << 4) | (y1 >> 4),
                ((x1 & 15) << 2) | (x2 >> 6) == ((y1 & 15) << 2) | (y2 >> 6),
                x2 & 63 == y2 & 63,
        ;
        assert(base64_ascii_of(s1.skip(3)) =~= base64_ascii_of(s2.skip(3))) by {
            lemma_base64_text_len(s1.skip(3));
            lemma_base64_text_len(s2.skip(3));
            assert forall|i: int|
                0 <= i < base64_ascii_of(s1.skip(3)).len() implies base64_ascii_of(s1.skip(3))[i]
                == base64_ascii_of(s2.skip(3))[i] by {
                assert(base64_ascii_of(s1)[i + 4] == base64_ascii_of(s1.skip(3))[i]);
                assert(base64_ascii_of(s2)[i + 4] == base64_ascii_of(s2.skip(3))[i]);
            }
        }
        lemma_base64_injective(s1.skip(3), s2.skip(3));
        assert forall|i: int| 0 <= i < s1.len() implies s1[i] == s2[i] by {
            if i >= 3 {
                assert(s1[i] == s1.skip(3)[i - 3]);
                assert(s2[i] == s2.skip(3)[i - 3]);
            }
        }
        assert(s1 =~= s2);
    }
}

/// The same, at the level of the returned text: equal texts come only
/// from equal fingerprint bytes.
pub proof fn lemma_base64_text_injective(s1: Seq<u8>, s2: Seq<u8>)
    requires
        base64_of(s1) == base64_of(s2),
    ensures
        s1 == s2,
{
    let a1 = base64_ascii_of(s1);
    let a2 = base64_ascii_of(s2);
    assert(a1 =~= a2) by {
        assert(ascii_chars(a1).len() == a1.len());
        assert(ascii_chars(a2).len() == a2.len());
        assert forall|i: int| 0 <= i < a1.len() implies a1[i] == a2[i] by {
            assert(ascii_chars(a1)[i] == a1[i] as char);
            assert(ascii_chars(a2)[i] == a2[i] as char);
        }
    }
    lemma_base64_injective(s1, s2);
}

/// Base64 text of a byte buffer, with the standard alphabet and no
/// padding.
pub fn encode_base64(s: &[u8]) -> (r: String)
    ensures
        r@ == base64_of(s@),
{
    let n = s.len();
    let mut out: Vec<u8> = Vec::new();
    let mut i: usize = 0;
    proof {
        assert(s@.skip(0) =~= s@);
        assert(out@ + base64_ascii_of(s@.skip(0)) =~= base64_ascii_of(s@));
    }
    while n - i >= 3
        invariant
            n == s@.len(),
            i <= n,
            base64_ascii_of(s@) == out@ + base64_ascii_of(s@.skip(i as int)),
            forall|j: int| 0 <= j < out@.len() ==> #[trigger] out@[j] < 128,
        decreases n - i,
    {
        let b0 = s[i];
        let b1 = s[i + 1];
        let b2 = s[i + 2];
        proof {
            lemma_sextets_in_range(b0, b1, b2);
            lemma_base64_ascii_step(s@, i as int);
        }
        out.push(b64_ascii_byte(b0 >> 2));
        out.push(b64_ascii_byte(((b0 & 3) << 4) | (b1 >> 4)));
        out.push(b64_ascii_byte(((b1 & 15) << 2) | (b2 >> 6)));
        out.push(b64_ascii_byte(b2 & 63));
        i = i + 3;
        proof {
            assert(base64_ascii_of(s@) =~= out@ + base64_ascii_of(s@.skip(i as int)));
        }
    }
    let rem = n - i;
    if rem == 2 {
        let b0 = s[i];
        let b1 = s[i + 1];
        proof {
            lemma_sextets_in_range(b0, b1, 0);
            assert(s@.skip(i as int)[0] == s@[i as int]);
            assert(s@.skip(i as int)[1] == s@[i as int + 1]);
        }
        out.push(b64_ascii_byte(b0 >> 2));
        out.push(b64_ascii_byte(((b0 & 3) << 4) | (b1 >> 4)));
        out.push(b64_ascii_byte((b1 & 15) << 2));
        proof {
            assert(base64_ascii_of(s@) =~= out@);
        }
    } else if rem == 1 {
        let b0 = s[i];
        proof {
            lemma_sextets_in_range(b0, 0, 0);
            assert(s@.skip(i as int)[0] == s@[i as int]);
        }
        out.push(b64_ascii_byte(b0 >> 2));
        out.push(b64_ascii_byte((b0 & 3) << 4));
        proof {
            assert(base64_ascii_of(s@) =~= out@);
        }
    } else {
        proof {
            assert(base64_ascii_of(s@) =~= out@);
        }
    }
    ascii_to_string(out)
}

} // verus!
