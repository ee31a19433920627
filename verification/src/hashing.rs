use vstd::prelude::*;

use vstd::arithmetic::div_mod::lemma_add_mod_noop;
use vstd::arithmetic::div_mod::lemma_div_denominator;
use vstd::arithmetic::div_mod::lemma_fundamental_div_mod;
use vstd::arithmetic::div_mod::lemma_mod_mod;
use vstd::arithmetic::div_mod::lemma_mod_multiples_basic;

use crate::content::Student;

verus! {

/// The compact form of a length `n <= u32::MAX`: the two low bits of the first
/// byte select the width, the length itself sits in the remaining bits,
/// little-endian. Lengths below 2^6 take one byte, below 2^14 two, below 2^30
/// four; any larger length is written as a marker byte followed by the four
/// little-endian bytes of the length.
pub open spec fn compact_of(n: nat) -> Seq<u8>
    recommends
        n <= u32::MAX,
{
    if n < 64 {
        seq![(n * 4) as u8]
    } else if n < 16384 {
        seq![((n * 4 + 1) % 256) as u8, ((n * 4 + 1) / 256) as u8]
    } else if n < 1073741824 {
        seq![
            ((n * 4 + 2) % 256) as u8,
            (((n * 4 + 2) / 256) % 256) as u8,
            (((n * 4 + 2) / 65536) % 256) as u8,
            ((n * 4 + 2) / 16777216) as u8,
        ]
    } else {
        seq![
            3u8,
            (n % 256) as u8,
            ((n / 256) % 256) as u8,
            ((n / 65536) % 256) as u8,
            (n / 16777216) as u8,
        ]
    }
}

/// A byte sequence in serialized form: its compact length prefix, then the
/// bytes themselves. The prefix marks the field boundary, which keeps the
/// whole content encoding injective.
pub open spec fn length_prefixed(s: Seq<u8>) -> Seq<u8>
    recommends
        s.len() <= u32::MAX,
{
    compact_of(s.len()) + s
}

/// The serialized content of a record: both byte fields, each length-prefixed,
/// then the age as one byte. Order-sensitive and boundary-unambiguous, so
/// distinct field triples serialize to distinct byte strings.
pub open spec fn content_encoding(id: Seq<u8>, name: Seq<u8>, age: u8) -> Seq<u8>
    recommends
        id.len() <= u32::MAX,
        name.len() <= u32::MAX,
{
    length_prefixed(id) + length_prefixed(name) + seq![age]
}

/// The Blake2b-256 digest of a byte sequence. Determined by the bytes alone;
/// nothing more is assumed of it.
pub uninterp spec fn blake2_256_of(bytes: Seq<u8>) -> Seq<u8>;

/// A record content's identity: the digest of its serialized form. This is the
/// registry's primary key.
pub open spec fn student_id_of(id: Seq<u8>, name: Seq<u8>, age: u8) -> Seq<u8>
    recommends
        id.len() <= u32::MAX,
        name.len() <= u32::MAX,
{
    blake2_256_of(content_encoding(id, name, age))
}

/// The width of a compact form, and the low two bits of its first byte, are
/// fixed by the mode the length falls in.
pub(crate) proof fn lemma_compact_shape(n: nat)
    requires
        n <= u32::MAX,
    ensures
        n < 64 ==> compact_of(n).len() == 1 && compact_of(n)[0] % 4 == 0,
        64 <= n < 16384 ==> compact_of(n).len() == 2 && compact_of(n)[0] % 4 == 1,
        16384 <= n < 1073741824 ==> compact_of(n).len() == 4 && compact_of(n)[0] % 4 == 2,
        1073741824 <= n ==> compact_of(n).len() == 5 && compact_of(n)[0] % 4 == 3,
{
    if n < 64 {
        lemma_mod_multiples_basic(n as int, 4);
        assert(compact_of(n)[0] == n * 4);
    } else if n < 16384 {
        let v = n * 4 + 1;
        lemma_mod_multiples_basic(n as int, 4);
        lemma_add_mod_noop(n as int * 4, 1, 4);
        lemma_mod_mod(v as int, 4, 64);
        assert(compact_of(n)[0] == v % 256);
        assert(v % 4 == 1);
    } else if n < 1073741824 {
        let v = n * 4 + 2;
        lemma_mod_multiples_basic(n as int, 4);
        lemma_add_mod_noop(n as int * 4, 2, 4);
        lemma_mod_mod(v as int, 4, 64);
        assert(compact_of(n)[0] == v % 256);
        assert(v % 4 == 2);
    }
}

/// A value below 2^32 is the sum of its four little-endian base-256 digits.
pub(crate) proof fn lemma_le4_reconstruct(v: nat)
    requires
        v < 0x1_0000_0000,
    ensures
        v == (v % 256) + 256 * ((v / 256) % 256) + 65536 * ((v / 65536) % 256) + 16777216 * (v
            / 16777216),
{
    lemma_fundamental_div_mod(v as int, 256);
    lemma_fundamental_div_mod((v as int) / 256, 256);
    lemma_div_denominator(v as int, 256, 256);
    lemma_fundamental_div_mod((v as int) / 65536, 256);
    lemma_div_denominator(v as int, 65536, 256);
}

/// A compact form followed by anything determines the length it encodes and
/// what follows: the first byte's low bits give the width, the remaining bits
/// the length itself.
pub(crate) proof fn lemma_compact_prefix_injective(n1: nat, r1: Seq<u8>, n2: nat, r2: Seq<u8>)
    requires
        n1 <= u32::MAX,
        n2 <= u32::MAX,
        compact_of(n1) + r1 == compact_of(n2) + r2,
    ensures
        n1 == n2,
        r1 == r2,
{
    let c1 = compact_of(n1);
    let c2 = compact_of(n2);
    let e = c1 + r1;
    lemma_compact_shape(n1);
    lemma_compact_shape(n2);
    assert(e[0] == c1[0]);
    assert(e[0] == c2[0]);
    assert(c1.len() == c2.len());
    assert(forall|i: int| 0 <= i < c1.len() ==> c1[i] == e[i] && c2[i] == e[i]);
    if n1 < 64 {
        assert(c1[0] == n1 * 4 && c2[0] == n2 * 4);
    } else if n1 < 16384 {
        let v1 = n1 * 4 + 1;
        let v2 = n2 * 4 + 1;
        assert(v1 % 256 == v2 % 256 && v1 / 256 == v2 / 256);
        lemma_fundamental_div_mod(v1 as int, 256);
        lemma_fundamental_div_mod(v2 as int, 256);
    } else if n1 < 1073741824 {
        let v1 = n1 * 4 + 2;
        let v2 = n2 * 4 + 2;
        assert(v1 / 16777216 < 256 && v2 / 16777216 < 256) by (nonlinear_arith)
            requires
                v1 < 0x1_0000_0000,
                v2 < 0x1_0000_0000,
        ;
        assert(v1 % 256 == v2 % 256 && (v1 / 256) % 256 == (v2 / 256) % 256 && (v1 / 65536) % 256
            == (v2 / 65536) % 256 && v1 / 16777216 == v2 / 16777216);
        lemma_le4_reconstruct(v1);
        lemma_le4_reconstruct(v2);
    } else {
        assert(n1 / 16777216 < 256 && n2 / 16777216 < 256) by (nonlinear_arith)
            requires
                n1 < 0x1_0000_0000,
                n2 < 0x1_0000_0000,
        ;
        assert(n1 % 256 == n2 % 256 && (n1 / 256) % 256 == (n2 / 256) % 256 && (n1 / 65536) % 256
            == (n2 / 65536) % 256 && n1 / 16777216 == n2 / 16777216);
        lemma_le4_reconstruct(n1);
        lemma_le4_reconstruct(n2);
    }
    assert(r1 =~= r2) by {
        assert((c1 + r1).len() == (c2 + r2).len());
        assert(r1.len() == r2.len());
        assert forall|i: int| 0 <= i < r1.len() implies r1[i] == r2[i] by {
            assert((c1 + r1)[c1.len() + i] == r1[i]);
            assert((c2 + r2)[c2.len() + i] == r2[i]);
        }
    }
}

/// Equal concatenations with equally long left parts have equal parts.
pub(crate) proof fn lemma_concat_cancel(a1: Seq<u8>, b1: Seq<u8>, a2: Seq<u8>, b2: Seq<u8>)
    requires
        a1.len() == a2.len(),
        a1 + b1 == a2 + b2,
    ensures
        a1 == a2,
        b1 == b2,
{
    assert(a1 =~= a2) by {
        assert forall|i: int| 0 <= i < a1.len() implies a1[i] == a2[i] by {
            assert((a1 + b1)[i] == a1[i]);
            assert((a2 + b2)[i] == a2[i]);
        }
    }
    assert(b1 =~= b2) by {
        assert((a1 + b1).len() == a1.len() + b1.len());
        assert((a2 + b2).len() == a2.len() + b2.len());
        assert((a1 + b1).len() == (a2 + b2).len());
        assert(b1.len() == b2.len());
        assert forall|i: int| 0 <= i < b1.len() implies b1[i] == b2[i] by {
            assert((a1 + b1)[a1.len() + i] == b1[i]);
            assert((a2 + b2)[a2.len() + i] == b2[i]);
        }
    }
}

/// Relies on `sp_crypto_hashing::blake2_256`: a 32-byte Blake2b digest of the
/// input, computed from those bytes alone.
#[verifier::external_body]
fn blake2_256_digest(data: &[u8]) -> (r: [u8; 32])
    ensures
        r@ == blake2_256_of(data@),
{
    sp_crypto_hashing::blake2_256(data)
}

/// Append the compact form of `n` to `out`.
fn push_compact(out: &mut Vec<u8>, n: u32)
    ensures
        final(out)@ == old(out)@ + compact_of(n as nat),
{
    if n < 64 {
        out.push((n * 4) as u8);
    } else if n < 16384 {
        let v: u32 = n * 4 + 1;
        out.push((v % 256) as u8);
        out.push((v / 256) as u8);
    } else if n < 1073741824 {
        let v: u32 = n * 4 + 2;
        out.push((v % 256) as u8);
        out.push(((v / 256) % 256) as u8);
        out.push(((v / 65536) % 256) as u8);
        out.push((v / 16777216) as u8);
    } else {
        out.push(3u8);
        out.push((n % 256) as u8);
        out.push(((n / 256) % 256) as u8);
        out.push(((n / 65536) % 256) as u8);
        out.push((n / 16777216) as u8);
    }
    proof {
        assert(out@ =~= old(out)@ + compact_of(n as nat));
    }
}

/// Serialize a record's content into its injective byte encoding.
pub fn encode_content(s: &Student) -> (r: Vec<u8>)
    requires
        s.encodable(),
    ensures
        r@ == content_encoding(s.id@, s.name@, s.age),
{
    let mut out: Vec<u8> = Vec::new();
    push_compact(&mut out, s.id.len() as u32);
    let mut i: usize = 0;
    while i < s.id.len()
        invariant
            i <= s.id@.len(),
            out@ == compact_of(s.id@.len()) + s.id@.take(i as int),
        decreases s.id@.len() - i,
    {
        out.push(s.id[i]);
        proof {
            assert(out@ =~= compact_of(s.id@.len()) + s.id@.take(i + 1 as int));
        }
        i = i + 1;
    }
    proof {
        assert(s.id@.take(i as int) =~= s.id@);
    }
    push_compact(&mut out, s.name.len() as u32);
    let mut j: usize = 0;
    while j < s.name.len()
        invariant
            j <= s.name@.len(),
            out@ == length_prefixed(s.id@) + compact_of(s.name@.len()) + s.name@.take(j as int),
        decreases s.name@.len() - j,
    {
        out.push(s.name[j]);
        proof {
            assert(out@ =~= length_prefixed(s.id@) + compact_of(s.name@.len()) + s.name@.take(
                j + 1 as int,
            ));
        }
        j = j + 1;
    }
    proof {
        assert(s.name@.take(j as int) =~= s.name@);
    }
    out.push(s.age);
    proof {
        assert(out@ =~= content_encoding(s.id@, s.name@, s.age));
    }
    out
}

/// Compute a content's identity: the digest of its serialized form.
pub fn identity_of(s: &Student) -> (r: [u8; 32])
    requires
        s.encodable(),
    ensures
        r@ == student_id_of(s.id@, s.name@, s.age),
{
    let bytes = encode_content(s);
    blake2_256_digest(bytes.as_slice())
}

} // verus!
