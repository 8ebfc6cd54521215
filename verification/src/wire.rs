//! Little-endian fixed-width integers and length-prefixed sequences: the byte layout
//! in which the Mosaic program reads its instructions and stores its accounts.
//!
//! A parser takes the bytes still to read and gives back the value and the bytes
//! after it; an encoder gives the bytes of a value. Every parser here reads back
//! exactly what its encoder wrote, whatever follows, and accepts nothing else.

use vstd::prelude::*;

verus! {

/// A public key is 32 bytes.
pub const KEY_LEN: usize = 32;

/// The two bytes of `x`, least significant first.
pub open spec fn u16_le(x: u16) -> Seq<u8> {
    seq![(x & 0xff) as u8, ((x >> 8) & 0xff) as u8]
}

/// The two bytes of `x`, most significant first.
pub open spec fn u16_be(x: u16) -> Seq<u8> {
    seq![((x >> 8) & 0xff) as u8, (x & 0xff) as u8]
}

/// The value of two bytes read least significant first.
pub open spec fn u16_from_le(b0: u8, b1: u8) -> u16 {
    (b0 as u16) | ((b1 as u16) << 8)
}

/// The four bytes of `x`, least significant first.
pub open spec fn u32_le(x: u32) -> Seq<u8> {
    seq![
        (x & 0xff) as u8,
        ((x >> 8) & 0xff) as u8,
        ((x >> 16) & 0xff) as u8,
        ((x >> 24) & 0xff) as u8,
    ]
}

/// The value of four bytes read least significant first.
pub open spec fn u32_from_le(b0: u8, b1: u8, b2: u8, b3: u8) -> u32 {
    (b0 as u32) | ((b1 as u32) << 8) | ((b2 as u32) << 16) | ((b3 as u32) << 24)
}

/// The byte of a boolean.
pub open spec fn bool_byte(b: bool) -> u8 {
    if b {
        1
    } else {
        0
    }
}

/// The keys one after the other.
pub open spec fn concat_keys(ks: Seq<Seq<u8>>) -> Seq<u8>
    decreases ks.len(),
{
    if ks.len() == 0 {
        Seq::empty()
    } else {
        concat_keys(ks.drop_last()) + ks.last()
    }
}

/// A sequence of keys: its length as four bytes, then the keys.
pub open spec fn enc_keys(ks: Seq<Seq<u8>>) -> Seq<u8> {
    u32_le(ks.len() as u32) + concat_keys(ks)
}

/// A byte string: its length as four bytes, then the bytes.
pub open spec fn enc_bytes(b: Seq<u8>) -> Seq<u8> {
    u32_le(b.len() as u32) + b
}

/// The byte strings one after the other, each with its length.
pub open spec fn concat_byte_vecs(vs: Seq<Seq<u8>>) -> Seq<u8>
    decreases vs.len(),
{
    if vs.len() == 0 {
        Seq::empty()
    } else {
        concat_byte_vecs(vs.drop_last()) + enc_bytes(vs.last())
    }
}

/// A sequence of byte strings: their number as four bytes, then each string.
pub open spec fn enc_byte_vecs(vs: Seq<Seq<u8>>) -> Seq<u8> {
    u32_le(vs.len() as u32) + concat_byte_vecs(vs)
}

/// Keys that can be written: each has 32 bytes and their number fits in four bytes.
pub open spec fn keys_wf(ks: Seq<Seq<u8>>) -> bool {
    &&& ks.len() <= u32::MAX
    &&& forall|i: int| 0 <= i < ks.len() ==> (#[trigger] ks[i]).len() == KEY_LEN
}

/// Byte strings that can be written: every length fits in four bytes.
pub open spec fn byte_vecs_wf(vs: Seq<Seq<u8>>) -> bool {
    &&& vs.len() <= u32::MAX
    &&& forall|i: int| 0 <= i < vs.len() ==> (#[trigger] vs[i]).len() <= u32::MAX
}

pub open spec fn parse_u8(s: Seq<u8>) -> Option<(u8, Seq<u8>)> {
    if s.len() >= 1 {
        Some((s[0], s.skip(1)))
    } else {
        None
    }
}

/// A boolean is the byte 0 or the byte 1; any other byte is refused.
pub open spec fn parse_bool(s: Seq<u8>) -> Option<(bool, Seq<u8>)> {
    if s.len() >= 1 && s[0] == 0 {
        Some((false, s.skip(1)))
    } else if s.len() >= 1 && s[0] == 1 {
        Some((true, s.skip(1)))
    } else {
        None
    }
}

pub open spec fn parse_u16(s: Seq<u8>) -> Option<(u16, Seq<u8>)> {
    if s.len() >= 2 {
        Some((u16_from_le(s[0], s[1]), s.skip(2)))
    } else {
        None
    }
}

pub open spec fn parse_u32(s: Seq<u8>) -> Option<(u32, Seq<u8>)> {
    if s.len() >= 4 {
        Some((u32_from_le(s[0], s[1], s[2], s[3]), s.skip(4)))
    } else {
        None
    }
}

pub open spec fn parse_key(s: Seq<u8>) -> Option<(Seq<u8>, Seq<u8>)> {
    if s.len() >= KEY_LEN {
        Some((s.take(KEY_LEN as int), s.skip(KEY_LEN as int)))
    } else {
        None
    }
}

/// `n` keys, one after the other.
pub open spec fn parse_keys_n(s: Seq<u8>, n: nat) -> Option<(Seq<Seq<u8>>, Seq<u8>)>
    decreases n,
{
    if n == 0 {
        Some((Seq::empty(), s))
    } else {
        match parse_keys_n(s, (n - 1) as nat) {
            Some((ks, r)) => match parse_key(r) {
                Some((k, r2)) => Some((ks.push(k), r2)),
                None => None,
            },
            None => None,
        }
    }
}

pub open spec fn parse_keys(s: Seq<u8>) -> Option<(Seq<Seq<u8>>, Seq<u8>)> {
    match parse_u32(s) {
        Some((n, r)) => parse_keys_n(r, n as nat),
        None => None,
    }
}

pub open spec fn parse_bytes(s: Seq<u8>) -> Option<(Seq<u8>, Seq<u8>)> {
    match parse_u32(s) {
        Some((n, r)) => if r.len() >= n {
            Some((r.take(n as int), r.skip(n as int)))
        } else {
            None
        },
        None => None,
    }
}

/// `n` byte strings, one after the other.
pub open spec fn parse_byte_vecs_n(s: Seq<u8>, n: nat) -> Option<(Seq<Seq<u8>>, Seq<u8>)>
    decreases n,
{
    if n == 0 {
        Some((Seq::empty(), s))
    } else {
        match parse_byte_vecs_n(s, (n - 1) as nat) {
            Some((vs, r)) => match parse_bytes(r) {
                Some((v, r2)) => Some((vs.push(v), r2)),
                None => None,
            },
            None => None,
        }
    }
}

pub open spec fn parse_byte_vecs(s: Seq<u8>) -> Option<(Seq<Seq<u8>>, Seq<u8>)> {
    match parse_u32(s) {
        Some((n, r)) => parse_byte_vecs_n(r, n as nat),
        None => None,
    }
}

/// The views of a sequence of keys.
pub open spec fn keys_view(ks: Seq<[u8; 32]>) -> Seq<Seq<u8>> {
    ks.map_values(|k: [u8; 32]| k@)
}

/// The views of a sequence of byte vectors.
pub open spec fn byte_vecs_view(vs: Seq<Vec<u8>>) -> Seq<Seq<u8>> {
    vs.map_values(|v: Vec<u8>| v@)
}

// ---------------------------------------------------------------------------
// What each parser reads back from its encoder, and that it accepts nothing else.

/// The two bytes of `u16_be(x)`, the first worth 256 and the second worth 1, add up to
/// `x`: the most significant byte comes first, for every `x`.
pub proof fn lemma_u16_be_value(x: u16)
    ensures
        u16_be(x).len() == 2,
        u16_be(x)[0] as int * 256 + u16_be(x)[1] as int == x as int,
{
    assert(((x >> 8) & 0xff) as u8 == x / 256 && (x & 0xff) as u8 == x % 256) by (bit_vector);
}

/// The four bytes of `u32_le(x)`, least significant first, add up to `x`.
pub proof fn lemma_u32_le_value(x: u32)
    ensures
        u32_le(x).len() == 4,
        u32_le(x)[0] as int + u32_le(x)[1] as int * 256 + u32_le(x)[2] as int * 65536
            + u32_le(x)[3] as int * 16777216 == x as int,
{
    assert((x & 0xff) as u8 == x % 256 && ((x >> 8) & 0xff) as u8 == (x / 256) % 256 && ((x
        >> 16) & 0xff) as u8 == (x / 65536) % 256 && ((x >> 24) & 0xff) as u8 == x / 16777216)
        by (bit_vector);
}

/// Keys of 32 bytes, one after the other, take 32 bytes each, and the `i`-th key sits
/// at bytes `32 * i` to `32 * i + 32`.
pub proof fn lemma_concat_keys_layout(ks: Seq<Seq<u8>>)
    requires
        forall|i: int| 0 <= i < ks.len() ==> (#[trigger] ks[i]).len() == KEY_LEN,
    ensures
        concat_keys(ks).len() == 32 * ks.len(),
        forall|i: int|
            0 <= i < ks.len() ==> concat_keys(ks).subrange(32 * i, 32 * i + 32) == #[trigger] ks[i],
    decreases ks.len(),
{
    if ks.len() > 0 {
        let init = ks.drop_last();
        lemma_concat_keys_layout(init);
        let c = concat_keys(ks);
        assert(c == concat_keys(init) + ks.last());
        assert forall|i: int| 0 <= i < ks.len() implies c.subrange(32 * i, 32 * i + 32)
            == #[trigger] ks[i] by {
            if i < ks.len() - 1 {
                assert(init[i] == ks[i]);
                assert(c.subrange(32 * i, 32 * i + 32) =~= concat_keys(init).subrange(
                    32 * i,
                    32 * i + 32,
                ));
            } else {
                assert(c.subrange(32 * i, 32 * i + 32) =~= ks.last());
            }
        }
    }
}

pub proof fn lemma_u16_le_roundtrip(x: u16)
    ensures
        u16_from_le(u16_le(x)[0], u16_le(x)[1]) == x,
{
    let b0 = (x & 0xff) as u8;
    let b1 = ((x >> 8) & 0xff) as u8;
    assert((b0 as u16) | ((b1 as u16) << 8) == x) by (bit_vector)
        requires
            b0 == (x & 0xff) as u8,
            b1 == ((x >> 8) & 0xff) as u8,
    ;
}

pub proof fn lemma_u16_le_canonical(b0: u8, b1: u8)
    ensures
        u16_le(u16_from_le(b0, b1)) == seq![b0, b1],
{
    let x = u16_from_le(b0, b1);
    assert((x & 0xff) as u8 == b0 && ((x >> 8) & 0xff) as u8 == b1) by (bit_vector)
        requires
            x == (b0 as u16) | ((b1 as u16) << 8),
    ;
    assert(u16_le(x) =~= seq![b0, b1]);
}

pub proof fn lemma_u32_le_roundtrip(x: u32)
    ensures
        u32_from_le(u32_le(x)[0], u32_le(x)[1], u32_le(x)[2], u32_le(x)[3]) == x,
{
    let b0 = (x & 0xff) as u8;
    let b1 = ((x >> 8) & 0xff) as u8;
    let b2 = ((x >> 16) & 0xff) as u8;
    let b3 = ((x >> 24) & 0xff) as u8;
    assert((b0 as u32) | ((b1 as u32) << 8) | ((b2 as u32) << 16) | ((b3 as u32) << 24) == x)
        by (bit_vector)
        requires
            b0 == (x & 0xff) as u8,
            b1 == ((x >> 8) & 0xff) as u8,
            b2 == ((x >> 16) & 0xff) as u8,
            b3 == ((x >> 24) & 0xff) as u8,
    ;
}

pub proof fn lemma_u32_le_canonical(b0: u8, b1: u8, b2: u8, b3: u8)
    ensures
        u32_le(u32_from_le(b0, b1, b2, b3)) == seq![b0, b1, b2, b3],
{
    let x = u32_from_le(b0, b1, b2, b3);
    assert((x & 0xff) as u8 == b0 && ((x >> 8) & 0xff) as u8 == b1 && ((x >> 16) & 0xff) as u8
        == b2 && ((x >> 24) & 0xff) as u8 == b3) by (bit_vector)
        requires
            x == (b0 as u32) | ((b1 as u32) << 8) | ((b2 as u32) << 16) | ((b3 as u32) << 24),
    ;
    assert(u32_le(x) =~= seq![b0, b1, b2, b3]);
}

pub proof fn lemma_parse_u8(b: u8, rest: Seq<u8>)
    ensures
        parse_u8(seq![b] + rest) == Some((b, rest)),
{
    assert((seq![b] + rest).skip(1) =~= rest);
}

pub proof fn lemma_parse_u8_canonical(s: Seq<u8>)
    ensures
        parse_u8(s) matches Some((b, r)) ==> s == seq![b] + r,
{
    if s.len() >= 1 {
        assert(s =~= seq![s[0]] + s.skip(1));
    }
}

pub proof fn lemma_parse_bool(b: bool, rest: Seq<u8>)
    ensures
        parse_bool(seq![bool_byte(b)] + rest) == Some((b, rest)),
{
    assert((seq![bool_byte(b)] + rest).skip(1) =~= rest);
}

pub proof fn lemma_parse_bool_canonical(s: Seq<u8>)
    ensures
        parse_bool(s) matches Some((b, r)) ==> s == seq![bool_byte(b)] + r,
{
    if s.len() >= 1 {
        assert(s =~= seq![s[0]] + s.skip(1));
    }
}

pub proof fn lemma_parse_u16(x: u16, rest: Seq<u8>)
    ensures
        parse_u16(u16_le(x) + rest) == Some((x, rest)),
{
    lemma_u16_le_roundtrip(x);
    assert((u16_le(x) + rest).skip(2) =~= rest);
}

pub proof fn lemma_parse_u16_canonical(s: Seq<u8>)
    ensures
        parse_u16(s) matches Some((x, r)) ==> s == u16_le(x) + r,
{
    if s.len() >= 2 {
        lemma_u16_le_canonical(s[0], s[1]);
        assert(s =~= seq![s[0], s[1]] + s.skip(2));
    }
}

pub proof fn lemma_parse_u32(x: u32, rest: Seq<u8>)
    ensures
        parse_u32(u32_le(x) + rest) == Some((x, rest)),
{
    lemma_u32_le_roundtrip(x);
    assert((u32_le(x) + rest).skip(4) =~= rest);
}

pub proof fn lemma_parse_u32_canonical(s: Seq<u8>)
    ensures
        parse_u32(s) matches Some((x, r)) ==> s == u32_le(x) + r,
{
    if s.len() >= 4 {
        lemma_u32_le_canonical(s[0], s[1], s[2], s[3]);
        assert(s =~= seq![s[0], s[1], s[2], s[3]] + s.skip(4));
    }
}

pub proof fn lemma_parse_key(k: Seq<u8>, rest: Seq<u8>)
    requires
        k.len() == KEY_LEN,
    ensures
        parse_key(k + rest) == Some((k, rest)),
{
    assert((k + rest).take(32) =~= k);
    assert((k + rest).skip(32) =~= rest);
}

pub proof fn lemma_parse_key_canonical(s: Seq<u8>)
    ensures
        parse_key(s) matches Some((k, r)) ==> k.len() == KEY_LEN && s == k + r,
{
    if s.len() >= 32 {
        assert(s =~= s.take(32) + s.skip(32));
    }
}

pub proof fn lemma_parse_keys_n(ks: Seq<Seq<u8>>, rest: Seq<u8>)
    requires
        forall|i: int| 0 <= i < ks.len() ==> (#[trigger] ks[i]).len() == KEY_LEN,
    ensures
        parse_keys_n(concat_keys(ks) + rest, ks.len()) == Some((ks, rest)),
    decreases ks.len(),
{
    if ks.len() == 0 {
        assert(concat_keys(ks) + rest =~= rest);
        assert(ks =~= Seq::<Seq<u8>>::empty());
    } else {
        let init = ks.drop_last();
        let k = ks.last();
        assert(concat_keys(ks) + rest =~= concat_keys(init) + (k + rest));
        lemma_parse_keys_n(init, k + rest);
        lemma_parse_key(k, rest);
        assert(init.push(k) =~= ks);
    }
}

pub proof fn lemma_parse_keys_n_canonical(s: Seq<u8>, n: nat)
    ensures
        parse_keys_n(s, n) matches Some((ks, r)) ==> {
            &&& ks.len() == n
            &&& forall|i: int| 0 <= i < ks.len() ==> (#[trigger] ks[i]).len() == KEY_LEN
            &&& s == concat_keys(ks) + r
        },
    decreases n,
{
    if n == 0 {
        assert(s =~= concat_keys(Seq::<Seq<u8>>::empty()) + s);
    } else {
        lemma_parse_keys_n_canonical(s, (n - 1) as nat);
        if let Some((init, r1)) = parse_keys_n(s, (n - 1) as nat) {
            lemma_parse_key_canonical(r1);
            if let Some((k, r2)) = parse_key(r1) {
                let ks = init.push(k);
                assert(ks.drop_last() =~= init);
                assert(s =~= concat_keys(ks) + r2);
            }
        }
    }
}

pub proof fn lemma_parse_keys(ks: Seq<Seq<u8>>, rest: Seq<u8>)
    requires
        keys_wf(ks),
    ensures
        parse_keys(enc_keys(ks) + rest) == Some((ks, rest)),
{
    assert(enc_keys(ks) + rest =~= u32_le(ks.len() as u32) + (concat_keys(ks) + rest));
    lemma_parse_u32(ks.len() as u32, concat_keys(ks) + rest);
    lemma_parse_keys_n(ks, rest);
}

pub proof fn lemma_parse_keys_canonical(s: Seq<u8>)
    ensures
        parse_keys(s) matches Some((ks, r)) ==> keys_wf(ks) && s == enc_keys(ks) + r,
{
    lemma_parse_u32_canonical(s);
    if let Some((n, r1)) = parse_u32(s) {
        lemma_parse_keys_n_canonical(r1, n as nat);
        if let Some((ks, r)) = parse_keys_n(r1, n as nat) {
            assert(s =~= enc_keys(ks) + r);
        }
    }
}

pub proof fn lemma_parse_bytes(b: Seq<u8>, rest: Seq<u8>)
    requires
        b.len() <= u32::MAX,
    ensures
        parse_bytes(enc_bytes(b) + rest) == Some((b, rest)),
{
    let n = b.len() as u32;
    let tail = b + rest;
    assert(enc_bytes(b) + rest =~= u32_le(n) + tail);
    lemma_parse_u32(n, tail);
    assert(tail.len() >= n);
    assert(tail.take(n as int) =~= b);
    assert(tail.skip(n as int) =~= rest);
}

pub proof fn lemma_parse_bytes_canonical(s: Seq<u8>)
    ensures
        parse_bytes(s) matches Some((b, r)) ==> b.len() <= u32::MAX && s == enc_bytes(b) + r,
{
    lemma_parse_u32_canonical(s);
    if let Some((n, r1)) = parse_u32(s) {
        if r1.len() >= n {
            assert(r1 =~= r1.take(n as int) + r1.skip(n as int));
            assert(s =~= enc_bytes(r1.take(n as int)) + r1.skip(n as int));
        }
    }
}

pub proof fn lemma_parse_byte_vecs_n(vs: Seq<Seq<u8>>, rest: Seq<u8>)
    requires
        forall|i: int| 0 <= i < vs.len() ==> (#[trigger] vs[i]).len() <= u32::MAX,
    ensures
        parse_byte_vecs_n(concat_byte_vecs(vs) + rest, vs.len()) == Some((vs, rest)),
    decreases vs.len(),
{
    if vs.len() == 0 {
        assert(concat_byte_vecs(vs) + rest =~= rest);
        assert(vs =~= Seq::<Seq<u8>>::empty());
    } else {
        let init = vs.drop_last();
        let v = vs.last();
        assert(concat_byte_vecs(vs) + rest =~= concat_byte_vecs(init) + (enc_bytes(v) + rest));
        lemma_parse_byte_vecs_n(init, enc_bytes(v) + rest);
        lemma_parse_bytes(v, rest);
        assert(init.push(v) =~= vs);
    }
}

pub proof fn lemma_parse_byte_vecs_n_canonical(s: Seq<u8>, n: nat)
    ensures
        parse_byte_vecs_n(s, n) matches Some((vs, r)) ==> {
            &&& vs.len() == n
            &&& forall|i: int| 0 <= i < vs.len() ==> (#[trigger] vs[i]).len() <= u32::MAX
            &&& s == concat_byte_vecs(vs) + r
        },
    decreases n,
{
    if n == 0 {
        assert(s =~= concat_byte_vecs(Seq::<Seq<u8>>::empty()) + s);
    } else {
        lemma_parse_byte_vecs_n_canonical(s, (n - 1) as nat);
        if let Some((init, r1)) = parse_byte_vecs_n(s, (n - 1) as nat) {
            lemma_parse_bytes_canonical(r1);
            if let Some((v, r2)) = parse_bytes(r1) {
                let vs = init.push(v);
                assert(vs.drop_last() =~= init);
                assert(s =~= concat_byte_vecs(vs) + r2);
            }
        }
    }
}

pub proof fn lemma_parse_byte_vecs(vs: Seq<Seq<u8>>, rest: Seq<u8>)
    requires
        byte_vecs_wf(vs),
    ensures
        parse_byte_vecs(enc_byte_vecs(vs) + rest) == Some((vs, rest)),
{
    assert(enc_byte_vecs(vs) + rest =~= u32_le(vs.len() as u32) + (concat_byte_vecs(vs) + rest));
    lemma_parse_u32(vs.len() as u32, concat_byte_vecs(vs) + rest);
    lemma_parse_byte_vecs_n(vs, rest);
}

pub proof fn lemma_parse_byte_vecs_canonical(s: Seq<u8>)
    ensures
        parse_byte_vecs(s) matches Some((vs, r)) ==> byte_vecs_wf(vs) && s == enc_byte_vecs(vs)
            + r,
{
    lemma_parse_u32_canonical(s);
    if let Some((n, r1)) = parse_u32(s) {
        lemma_parse_byte_vecs_n_canonical(r1, n as nat);
        if let Some((vs, r)) = parse_byte_vecs_n(r1, n as nat) {
            assert(s =~= enc_byte_vecs(vs) + r);
        }
    }
}

// ---------------------------------------------------------------------------
// Writing.

/// Appends the two bytes of `x`, least significant first.
pub fn push_u16_le(out: &mut Vec<u8>, x: u16)
    ensures
        final(out)@ == old(out)@ + u16_le(x),
{
    out.push((x & 0xff) as u8);
    out.push(((x >> 8) & 0xff) as u8);
    assert(final(out)@ =~= old(out)@ + u16_le(x));
}

/// Appends the four bytes of `x`, least significant first.
pub fn push_u32_le(out: &mut Vec<u8>, x: u32)
    ensures
        final(out)@ == old(out)@ + u32_le(x),
{
    out.push((x & 0xff) as u8);
    out.push(((x >> 8) & 0xff) as u8);
    out.push(((x >> 16) & 0xff) as u8);
    out.push(((x >> 24) & 0xff) as u8);
    assert(final(out)@ =~= old(out)@ + u32_le(x));
}

/// Appends the bytes of `b` as they are.
pub fn push_raw(out: &mut Vec<u8>, b: &[u8])
    ensures
        final(out)@ == old(out)@ + b@,
{
    let ghost start = out@;
    let mut i: usize = 0;
    while i < b.len()
        invariant
            i <= b@.len(),
            out@ == start + b@.take(i as int),
        decreases b@.len() - i,
    {
        out.push(b[i]);
        i = i + 1;
        assert(out@ =~= start + b@.take(i as int));
    }
    assert(b@.take(i as int) =~= b@);
}

/// Appends a key.
pub fn push_key(out: &mut Vec<u8>, k: &[u8; 32])
    ensures
        final(out)@ == old(out)@ + k@,
{
    push_raw(out, k.as_slice());
}

/// Appends a byte string with its length.
pub fn push_bytes(out: &mut Vec<u8>, b: &[u8])
    requires
        b@.len() <= u32::MAX,
    ensures
        final(out)@ == old(out)@ + enc_bytes(b@),
{
    push_u32_le(out, b.len() as u32);
    push_raw(out, b);
    assert(final(out)@ =~= old(out)@ + enc_bytes(b@));
}

/// Appends a sequence of keys with their number.
pub fn push_keys(out: &mut Vec<u8>, ks: &Vec<[u8; 32]>)
    requires
        ks@.len() <= u32::MAX,
    ensures
        final(out)@ == old(out)@ + enc_keys(keys_view(ks@)),
{
    let ghost start = out@;
    push_u32_le(out, ks.len() as u32);
    let ghost head = out@;
    let mut i: usize = 0;
    while i < ks.len()
        invariant
            i <= ks@.len(),
            ks@.len() <= u32::MAX,
            head == start + u32_le(ks@.len() as u32),
            out@ == head + concat_keys(keys_view(ks@.take(i as int))),
        decreases ks@.len() - i,
    {
        push_key(out, &ks[i]);
        proof {
            let now = keys_view(ks@.take(i + 1));
            assert(now.drop_last() =~= keys_view(ks@.take(i as int)));
            assert(now.last() == ks@[i as int]@);
        }
        i = i + 1;
        assert(out@ =~= head + concat_keys(keys_view(ks@.take(i as int))));
    }
    assert(ks@.take(i as int) =~= ks@);
    assert(final(out)@ =~= old(out)@ + enc_keys(keys_view(ks@)));
}

/// Appends a sequence of byte strings with their number, each with its length.
pub fn push_byte_vecs(out: &mut Vec<u8>, vs: &Vec<Vec<u8>>)
    requires
        byte_vecs_wf(byte_vecs_view(vs@)),
    ensures
        final(out)@ == old(out)@ + enc_byte_vecs(byte_vecs_view(vs@)),
{
    let ghost start = out@;
    push_u32_le(out, vs.len() as u32);
    let ghost head = out@;
    let mut i: usize = 0;
    while i < vs.len()
        invariant
            i <= vs@.len(),
            byte_vecs_wf(byte_vecs_view(vs@)),
            head == start + u32_le(vs@.len() as u32),
            out@ == head + concat_byte_vecs(byte_vecs_view(vs@.take(i as int))),
        decreases vs@.len() - i,
    {
        assert(byte_vecs_view(vs@)[i as int] == vs@[i as int]@);
        push_bytes(out, vs[i].as_slice());
        proof {
            let now = byte_vecs_view(vs@.take(i + 1));
            assert(now.drop_last() =~= byte_vecs_view(vs@.take(i as int)));
            assert(now.last() == vs@[i as int]@);
        }
        i = i + 1;
        assert(out@ =~= head + concat_byte_vecs(byte_vecs_view(vs@.take(i as int))));
    }
    assert(vs@.take(i as int) =~= vs@);
    assert(final(out)@ =~= old(out)@ + enc_byte_vecs(byte_vecs_view(vs@)));
}

// ---------------------------------------------------------------------------
// Reading. Each reader starts at `pos` and answers with the value and the position
// after it, exactly as the parser does on the bytes from `pos` on.

pub fn read_u8(data: &[u8], pos: usize) -> (r: Option<(u8, usize)>)
    requires
        pos <= data@.len(),
    ensures
        match r {
            Some((v, np)) => pos <= np <= data@.len() && parse_u8(data@.skip(pos as int)) == Some(
                (v, data@.skip(np as int)),
            ),
            None => parse_u8(data@.skip(pos as int)) is None,
        },
{
    if data.len() - pos >= 1 {
        assert(data@.skip(pos as int).skip(1) =~= data@.skip(pos + 1));
        Some((data[pos], pos + 1))
    } else {
        None
    }
}

pub fn read_bool(data: &[u8], pos: usize) -> (r: Option<(bool, usize)>)
    requires
        pos <= data@.len(),
    ensures
        match r {
            Some((v, np)) => pos <= np <= data@.len() && parse_bool(data@.skip(pos as int))
                == Some((v, data@.skip(np as int))),
            None => parse_bool(data@.skip(pos as int)) is None,
        },
{
    if data.len() - pos >= 1 {
        assert(data@.skip(pos as int).skip(1) =~= data@.skip(pos + 1));
        let b = data[pos];
        if b == 0 {
            Some((false, pos + 1))
        } else if b == 1 {
            Some((true, pos + 1))
        } else {
            None
        }
    } else {
        None
    }
}

pub fn read_u16_le(data: &[u8], pos: usize) -> (r: Option<(u16, usize)>)
    requires
        pos <= data@.len(),
    ensures
        match r {
            Some((v, np)) => pos <= np <= data@.len() && parse_u16(data@.skip(pos as int))
                == Some((v, data@.skip(np as int))),
            None => parse_u16(data@.skip(pos as int)) is None,
        },
{
    if data.len() - pos >= 2 {
        assert(data@.skip(pos as int).skip(2) =~= data@.skip(pos + 2));
        let v = (data[pos] as u16) | ((data[pos + 1] as u16) << 8);
        Some((v, pos + 2))
    } else {
        None
    }
}

pub fn read_u32_le(data: &[u8], pos: usize) -> (r: Option<(u32, usize)>)
    requires
        pos <= data@.len(),
    ensures
        match r {
            Some((v, np)) => pos <= np <= data@.len() && parse_u32(data@.skip(pos as int))
                == Some((v, data@.skip(np as int))),
            None => parse_u32(data@.skip(pos as int)) is None,
        },
{
    if data.len() - pos >= 4 {
        assert(data@.skip(pos as int).skip(4) =~= data@.skip(pos + 4));
        let v = (data[pos] as u32) | ((data[pos + 1] as u32) << 8) | ((data[pos + 2] as u32) << 16)
            | ((data[pos + 3] as u32) << 24);
        Some((v, pos + 4))
    } else {
        None
    }
}

pub fn read_key(data: &[u8], pos: usize) -> (r: Option<([u8; 32], usize)>)
    requires
        pos <= data@.len(),
    ensures
        match r {
            Some((k, np)) => pos <= np <= data@.len() && parse_key(data@.skip(pos as int))
                == Some((k@, data@.skip(np as int))),
            None => parse_key(data@.skip(pos as int)) is None,
        },
{
    if data.len() - pos >= KEY_LEN {
        let mut k = [0u8; 32];
        let mut i: usize = 0;
        while i < KEY_LEN
            invariant
                i <= KEY_LEN,
                pos + KEY_LEN <= data.len(),
                k@.len() == KEY_LEN,
                forall|j: int| 0 <= j < i ==> k@[j] == data@[pos + j],
            decreases KEY_LEN - i,
        {
            k[i] = data[pos + i];
            i = i + 1;
        }
        assert(k@ =~= data@.skip(pos as int).take(KEY_LEN as int));
        assert(data@.skip(pos as int).skip(KEY_LEN as int) =~= data@.skip(pos + KEY_LEN));
        Some((k, pos + KEY_LEN))
    } else {
        None
    }
}

pub fn read_bytes(data: &[u8], pos: usize) -> (r: Option<(Vec<u8>, usize)>)
    requires
        pos <= data@.len(),
    ensures
        match r {
            Some((b, np)) => pos <= np <= data@.len() && parse_bytes(data@.skip(pos as int))
                == Some((b@, data@.skip(np as int))),
            None => parse_bytes(data@.skip(pos as int)) is None,
        },
{
    match read_u32_le(data, pos) {
        None => None,
        Some((n, p1)) => {
            let n = n as usize;
            if data.len() - p1 >= n {
                let mut b: Vec<u8> = Vec::new();
                let mut i: usize = 0;
                while i < n
                    invariant
                        i <= n,
                        p1 + n <= data.len(),
                        b@ == data@.subrange(p1 as int, p1 + i),
                    decreases n - i,
                {
                    b.push(data[p1 + i]);
                    i = i + 1;
                    assert(b@ =~= data@.subrange(p1 as int, p1 + i));
                }
                assert(b@ =~= data@.skip(p1 as int).take(n as int));
                assert(data@.skip(p1 as int).skip(n as int) =~= data@.skip(p1 + n));
                Some((b, p1 + n))
            } else {
                None
            }
        },
    }
}

pub fn read_keys(data: &[u8], pos: usize) -> (r: Option<(Vec<[u8; 32]>, usize)>)
    requires
        pos <= data@.len(),
    ensures
        match r {
            Some((ks, np)) => pos <= np <= data@.len() && parse_keys(data@.skip(pos as int))
                == Some((keys_view(ks@), data@.skip(np as int))),
            None => parse_keys(data@.skip(pos as int)) is None,
        },
{
    match read_u32_le(data, pos) {
        None => None,
        Some((n, p1)) => {
            let mut ks: Vec<[u8; 32]> = Vec::new();
            let mut p = p1;
            let mut i: u32 = 0;
            while i < n
                invariant
                    i <= n,
                    pos <= p1 <= p <= data@.len(),
                    parse_u32(data@.skip(pos as int)) == Some((n, data@.skip(p1 as int))),
                    parse_keys_n(data@.skip(p1 as int), i as nat) == Some(
                        (keys_view(ks@), data@.skip(p as int)),
                    ),
                decreases n - i,
            {
                match read_key(data, p) {
                    None => {
                        proof {
                            lemma_parse_keys_n_fails_on(data@.skip(p1 as int), i as nat, n as nat);
                        }
                        return None;
                    },
                    Some((k, np)) => {
                        let ghost before = keys_view(ks@);
                        ks.push(k);
                        assert(keys_view(ks@) =~= before.push(k@));
                        p = np;
                        i = i + 1;
                    },
                }
            }
            Some((ks, p))
        },
    }
}

pub fn read_byte_vecs(data: &[u8], pos: usize) -> (r: Option<(Vec<Vec<u8>>, usize)>)
    requires
        pos <= data@.len(),
    ensures
        match r {
            Some((vs, np)) => pos <= np <= data@.len() && parse_byte_vecs(data@.skip(pos as int))
                == Some((byte_vecs_view(vs@), data@.skip(np as int))),
            None => parse_byte_vecs(data@.skip(pos as int)) is None,
        },
{
    match read_u32_le(data, pos) {
        None => None,
        Some((n, p1)) => {
            let mut vs: Vec<Vec<u8>> = Vec::new();
            let mut p = p1;
            let mut i: u32 = 0;
            while i < n
                invariant
                    i <= n,
                    pos <= p1 <= p <= data@.len(),
                    parse_u32(data@.skip(pos as int)) == Some((n, data@.skip(p1 as int))),
                    parse_byte_vecs_n(data@.skip(p1 as int), i as nat) == Some(
                        (byte_vecs_view(vs@), data@.skip(p as int)),
                    ),
                decreases n - i,
            {
                match read_bytes(data, p) {
                    None => {
                        proof {
                            lemma_parse_byte_vecs_n_fails_on(
                                data@.skip(p1 as int),
                                i as nat,
                                n as nat,
                            );
                        }
                        return None;
                    },
                    Some((v, np)) => {
                        let ghost before = byte_vecs_view(vs@);
                        vs.push(v);
                        assert(byte_vecs_view(vs@) =~= before.push(v@));
                        p = np;
                        i = i + 1;
                    },
                }
            }
            Some((vs, p))
        },
    }
}

/// Once the `i + 1`-th key cannot be read, no longer run of keys can be.
proof fn lemma_parse_keys_n_fails_on(s: Seq<u8>, i: nat, n: nat)
    requires
        i < n,
        parse_keys_n(s, i) matches Some((_, r)) && parse_key(r) is None,
    ensures
        parse_keys_n(s, n) is None,
    decreases n - i,
{
    if n == i + 1 {
    } else {
        lemma_parse_keys_n_fails_on(s, i, (n - 1) as nat);
    }
}

/// Once the `i + 1`-th byte string cannot be read, no longer run of them can be.
proof fn lemma_parse_byte_vecs_n_fails_on(s: Seq<u8>, i: nat, n: nat)
    requires
        i < n,
        parse_byte_vecs_n(s, i) matches Some((_, r)) && parse_bytes(r) is None,
    ensures
        parse_byte_vecs_n(s, n) is None,
    decreases n - i,
{
    if n == i + 1 {
    } else {
        lemma_parse_byte_vecs_n_fails_on(s, i, (n - 1) as nat);
    }
}

} // verus!
