//! Deterministic, presence-sensitive cache fingerprinting.
//!
//! A request's fingerprint is a 64-bit FNV-1a hash of an explicit
//! canonical serialization: the raw dimension text (each character as four
//! little-endian bytes of its scalar value) followed by the three optional
//! styling fields, each tagged with a presence byte before its value.
//! Tagging makes "absent" and "present with some value" serialize
//! differently, so they always hash from different byte sequences; the
//! hash is seed-fixed, so identical requests fingerprint identically
//! across processes and machines.

use vstd::prelude::*;

use crate::color::Color;
use crate::request::ImageConfig;
use crate::request::ImageMeta;

verus! {

/// FNV-1a 64-bit offset basis.
pub const FNV_OFFSET: u64 = 14695981039346656037;

/// FNV-1a 64-bit prime.
pub const FNV_PRIME: u64 = 1099511628211;

/// One FNV-1a round: fold a byte into the running hash.
pub open spec fn fnv1a_step(h: u64, byte: u8) -> u64 {
    (h ^ (byte as u64)).wrapping_mul(FNV_PRIME)
}

/// FNV-1a 64-bit hash of a byte sequence, from the fixed offset basis.
pub open spec fn fnv1a(bytes: Seq<u8>) -> u64
    decreases bytes.len(),
{
    if bytes.len() == 0 {
        FNV_OFFSET
    } else {
        fnv1a_step(fnv1a(bytes.drop_last()), bytes.last())
    }
}

/// A character serialized as the four little-endian bytes of its scalar
/// value.
pub open spec fn encode_char(c: char) -> Seq<u8> {
    let u = c as u32;
    seq![
        (u % 256) as u8,
        (u / 256 % 256) as u8,
        (u / 65536 % 256) as u8,
        (u / 16777216 % 256) as u8,
    ]
}

/// A character sequence serialized character by character.
pub open spec fn encode_chars(s: Seq<char>) -> Seq<u8>
    decreases s.len(),
{
    if s.len() == 0 {
        Seq::empty()
    } else {
        encode_chars(s.drop_last()) + encode_char(s.last())
    }
}

/// An optional color with its presence tag: a single 0 byte when absent,
/// a 1 byte followed by the three channels when present.
pub open spec fn encode_opt_color(o: Option<Color>) -> Seq<u8> {
    match o {
        None => seq![0u8],
        Some(c) => seq![1u8, c.r, c.g, c.b],
    }
}

/// An optional byte with its presence tag.
pub open spec fn encode_opt_u8(o: Option<u8>) -> Seq<u8> {
    match o {
        None => seq![0u8],
        Some(v) => seq![1u8, v],
    }
}

/// The canonical serialization of a request: raw dimension text, then the
/// tagged background color, border color and border size, in that fixed
/// order.
pub open spec fn canonical_bytes(config: ImageConfig, raw: Seq<char>) -> Seq<u8> {
    encode_chars(raw) + encode_opt_color(config.bg) + encode_opt_color(config.br) + encode_opt_u8(
        config.br_s,
    )
}

/// The fingerprint of a request: FNV-1a over its canonical serialization.
pub open spec fn spec_fingerprint(config: ImageConfig, raw: Seq<char>) -> u64 {
    fnv1a(canonical_bytes(config, raw))
}

/// Law: fingerprinting is deterministic.  Two requests with the same raw
/// dimension text and the same presence and value of every optional field
/// always fingerprint identically; the hash reads nothing else.
pub proof fn lemma_fingerprint_deterministic(a: ImageMeta, b: ImageMeta)
    requires
        a.config == b.config,
        a.raw_dimensions@ == b.raw_dimensions@,
    ensures
        spec_fingerprint(a.config, a.raw_dimensions@) == spec_fingerprint(
            b.config,
            b.raw_dimensions@,
        ),
{
}

/// Law: the canonical serialization is presence-sensitive.  A request
/// whose border size is absent and one whose border size is present (with
/// any value, zero included) serialize to byte sequences of different
/// lengths, so the hash never reads the same input for the two; the same
/// holds of the two color fields.
pub proof fn lemma_canonical_presence_sensitive(
    absent: ImageConfig,
    present: ImageConfig,
    raw: Seq<char>,
)
    requires
        absent.bg == present.bg,
        absent.br == present.br,
        absent.br_s is None,
        present.br_s is Some,
    ensures
        canonical_bytes(absent, raw) != canonical_bytes(present, raw),
{
    assert(canonical_bytes(absent, raw).len() + 1 == canonical_bytes(present, raw).len());
}

fn fnv1a_hash(bytes: &Vec<u8>) -> (h: u64)
    ensures
        h == fnv1a(bytes@),
{
    let mut h: u64 = FNV_OFFSET;
    let mut i: usize = 0;
    while i < bytes.len()
        invariant
            0 <= i <= bytes.len(),
            h == fnv1a(bytes@.subrange(0, i as int)),
        decreases bytes.len() - i,
    {
        proof {
            let pre = bytes@.subrange(0, i as int);
            let post = bytes@.subrange(0, i + 1 as int);
            assert(post.drop_last() =~= pre);
            assert(post.last() == bytes@[i as int]);
        }
        h = (h ^ (bytes[i] as u64)).wrapping_mul(FNV_PRIME);
        i = i + 1;
    }
    proof {
        assert(bytes@.subrange(0, bytes@.len() as int) =~= bytes@);
    }
    h
}

fn push_char(bytes: &mut Vec<u8>, c: char)
    ensures
        final(bytes)@ == old(bytes)@ + encode_char(c),
{
    let u = c as u32;
    bytes.push((u % 256) as u8);
    bytes.push((u / 256 % 256) as u8);
    bytes.push((u / 65536 % 256) as u8);
    bytes.push((u / 16777216 % 256) as u8);
    proof {
        assert(bytes@ =~= old(bytes)@ + encode_char(c));
    }
}

fn push_opt_color(bytes: &mut Vec<u8>, o: &Option<Color>)
    ensures
        final(bytes)@ == old(bytes)@ + encode_opt_color(*o),
{
    match o {
        None => {
            bytes.push(0);
        },
        Some(c) => {
            bytes.push(1);
            bytes.push(c.r);
            bytes.push(c.g);
            bytes.push(c.b);
        },
    }
    proof {
        assert(bytes@ =~= old(bytes)@ + encode_opt_color(*o));
    }
}

fn push_opt_u8(bytes: &mut Vec<u8>, o: &Option<u8>)
    ensures
        final(bytes)@ == old(bytes)@ + encode_opt_u8(*o),
{
    match o {
        None => {
            bytes.push(0);
        },
        Some(v) => {
            bytes.push(1);
            bytes.push(*v);
        },
    }
    proof {
        assert(bytes@ =~= old(bytes)@ + encode_opt_u8(*o));
    }
}

/// Computes the cache fingerprint of a validated request: the seed-fixed
/// FNV-1a hash of the canonical, presence-tagged serialization of its raw
/// dimension text and styling parameters.
pub fn fingerprint(meta: &ImageMeta) -> (h: u64)
    ensures
        h == spec_fingerprint(meta.config, meta.raw_dimensions@),
{
    let raw = meta.raw_dimensions.as_str();
    let n = raw.unicode_len();
    let mut bytes: Vec<u8> = Vec::new();
    let mut i: usize = 0;
    while i < n
        invariant
            0 <= i <= n,
            n == raw@.len(),
            bytes@ == encode_chars(raw@.subrange(0, i as int)),
        decreases n - i,
    {
        proof {
            let pre = raw@.subrange(0, i as int);
            let post = raw@.subrange(0, i + 1 as int);
            assert(post.drop_last() =~= pre);
            assert(post.last() == raw@[i as int]);
        }
        push_char(&mut bytes, raw.get_char(i));
        i = i + 1;
    }
    proof {
        assert(raw@.subrange(0, raw@.len() as int) =~= raw@);
    }
    push_opt_color(&mut bytes, &meta.config.bg);
    push_opt_color(&mut bytes, &meta.config.br);
    push_opt_u8(&mut bytes, &meta.config.br_s);
    proof {
        assert(bytes@ =~= canonical_bytes(meta.config, meta.raw_dimensions@));
    }
    fnv1a_hash(&bytes)
}

/// The decimal representation of a number, most significant digit first.
pub open spec fn spec_decimal(n: nat) -> Seq<u8>
    decreases n,
{
    if n < 10 {
        seq![(48 + n) as u8]
    } else {
        spec_decimal(n / 10) + seq![(48 + n % 10) as u8]
    }
}

/// Renders a fingerprint as its decimal digit string (as bytes): this is
/// the form under which cache entries are keyed in the store.
pub fn fingerprint_key(x: u64) -> (key: Vec<u8>)
    ensures
        key@ == spec_decimal(x as nat),
{
    let mut digits: Vec<u8> = Vec::new();
    let mut v = x;
    let mut done = false;
    while !done
        invariant
            done ==> v == 0,
            !done && v > 0 ==> spec_decimal(x as nat) == spec_decimal(v as nat)
                + digits@.reverse(),
            !done && v == 0 ==> digits@.len() == 0 && x == 0,
            done ==> spec_decimal(x as nat) == digits@.reverse(),
        decreases v + 1, (if done { 0int } else { 1int }),
    {
        let d = (v % 10) as u8 + 48;
        let ghost old_digits = digits@;
        digits.push(d);
        proof {
            assert(digits@.drop_last() =~= old_digits);
            assert(digits@.reverse() =~= seq![d] + old_digits.reverse());
            if v >= 10 {
                assert(spec_decimal(v as nat) == spec_decimal((v / 10) as nat) + seq![
                    (48 + v as nat % 10) as u8,
                ]);
                assert(spec_decimal((v / 10) as nat) + digits@.reverse() =~= spec_decimal(
                    v as nat,
                ) + old_digits.reverse());
            } else {
                assert(spec_decimal(v as nat) =~= seq![d]);
                assert(digits@.reverse() =~= spec_decimal(v as nat) + old_digits.reverse());
            }
        }
        if v < 10 {
            done = true;
            v = 0;
        } else {
            v = v / 10;
        }
    }
    let mut key: Vec<u8> = Vec::new();
    let mut i: usize = digits.len();
    while i > 0
        invariant
            0 <= i <= digits.len(),
            key@ =~= digits@.subrange(i as int, digits@.len() as int).reverse(),
        decreases i,
    {
        i = i - 1;
        key.push(digits[i]);
        proof {
            let tail = digits@.subrange(i as int, digits@.len() as int);
            assert(key@ =~= tail.reverse());
        }
    }
    proof {
        assert(digits@.subrange(0, digits@.len() as int) =~= digits@);
        assert(key@ =~= digits@.reverse());
    }
    key
}

} // verus!
