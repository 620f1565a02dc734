//! The bytes on the link: variable-length integers, delimited frames, the
//! bit mask and the bounded buffer of a sample.
//!
//! The encodings themselves are the work of outside crates. Each call into
//! one of them stands in a function of this module whose contract is
//! taken on trust; everything else in the crate is proved from those
//! contracts.

use vstd::prelude::*;

verus! {

/// The largest value that a variable-length integer holds in its first
/// byte.
pub const SINGLE_BYTE_MAX: u8 = 250;

/// The first byte of a variable-length integer of two more bytes.
pub const U16_BYTE: u8 = 251;

/// The first byte of a variable-length integer of four more bytes.
pub const U32_BYTE: u8 = 252;

/// The first byte of a variable-length integer of eight more bytes.
pub const U64_BYTE: u8 = 253;

/// The capacity of the buffer of a sample, in bytes.
pub const BUFFER_CAPACITY: usize = 128;

/// The `n` low bytes of `v`, lowest first.
pub open spec fn le_bytes(v: nat, n: nat) -> Seq<u8>
    decreases n,
{
    if n == 0 {
        Seq::empty()
    } else {
        seq![(v % 256) as u8] + le_bytes(v / 256, (n - 1) as nat)
    }
}

/// The number that `s` holds, lowest byte first.
pub open spec fn le_value(s: Seq<u8>) -> nat
    decreases s.len(),
{
    if s.len() == 0 {
        0
    } else {
        s[0] as nat + 256 * le_value(s.subrange(1, s.len() as int))
    }
}

/// The number of bytes that follow the first byte `tag` of a
/// variable-length integer.
pub open spec fn varint_tail(tag: u8) -> nat {
    if tag == U16_BYTE {
        2
    } else if tag == U32_BYTE {
        4
    } else if tag == U64_BYTE {
        8
    } else {
        0
    }
}

/// The variable-length encoding of `v`: one byte up to 250, else a tag
/// and the shortest of two, four or eight bytes that holds it, lowest
/// first.
pub open spec fn varint(v: nat) -> Seq<u8> {
    if v <= SINGLE_BYTE_MAX {
        seq![v as u8]
    } else if v <= 0xffff {
        seq![U16_BYTE] + le_bytes(v, 2)
    } else if v <= 0xffff_ffff {
        seq![U32_BYTE] + le_bytes(v, 4)
    } else {
        seq![U64_BYTE] + le_bytes(v, 8)
    }
}

/// The variable-length integer at the start of `s`, with the number of
/// bytes it takes up, where the tag is at most `widest`. There is none
/// where `s` is empty or too short, or the tag is wider than `widest`.
pub open spec fn parse_varint(s: Seq<u8>, widest: u8) -> Option<(nat, nat)> {
    if s.len() == 0 {
        None
    } else if s[0] <= SINGLE_BYTE_MAX {
        Some((s[0] as nat, 1nat))
    } else if s[0] <= widest && s[0] <= U64_BYTE && s.len() >= 1 + varint_tail(s[0]) {
        Some((le_value(s.subrange(1, 1 + varint_tail(s[0]) as int)), 1 + varint_tail(s[0])))
    } else {
        None
    }
}

/// The natural number that stands for the signed `v`: the non-negative
/// numbers on the even places, the negative ones on the odd.
pub open spec fn zigzag(v: int) -> nat {
    if v < 0 {
        (-2 * v - 1) as nat
    } else {
        (2 * v) as nat
    }
}

/// The signed number that `n` stands for.
pub open spec fn unzigzag(n: nat) -> int {
    if n % 2 == 0 {
        n as int / 2
    } else {
        -(n as int / 2) - 1
    }
}

/// Reading back what was written gives the number written.
pub proof fn lemma_le_round_trip(v: nat, n: nat)
    requires
        n == 0 ==> v == 0,
        n == 1 ==> v < 0x100,
        n == 2 ==> v < 0x1_0000,
        n == 3 ==> v < 0x100_0000,
        n == 4 ==> v < 0x1_0000_0000,
        n == 5 ==> v < 0x100_0000_0000,
        n == 6 ==> v < 0x1_0000_0000_0000,
        n == 7 ==> v < 0x100_0000_0000_0000,
        n == 8 ==> v < 0x1_0000_0000_0000_0000,
        n <= 8,
    ensures
        le_bytes(v, n).len() == n,
        le_value(le_bytes(v, n)) == v,
    decreases n,
{
    if n > 0 {
        lemma_le_round_trip(v / 256, (n - 1) as nat);
        let s = le_bytes(v, n);
        assert(s.subrange(1, s.len() as int) =~= le_bytes(v / 256, (n - 1) as nat));
        assert(s[0] == (v % 256) as u8);
    }
}

/// A variable-length integer that is followed by anything at all is read
/// back as it was written, with its own length.
pub proof fn lemma_varint_round_trip(v: nat, rest: Seq<u8>, widest: u8)
    requires
        v <= 0xffff_ffff_ffff_ffff,
        widest <= U64_BYTE,
        v > SINGLE_BYTE_MAX ==> widest >= U16_BYTE,
        v > 0xffff ==> widest >= U32_BYTE,
        v > 0xffff_ffff ==> widest >= U64_BYTE,
    ensures
        parse_varint(varint(v) + rest, widest) == Some((v, varint(v).len())),
        1 <= varint(v).len() <= 9,
{
    let s = varint(v) + rest;
    if v <= SINGLE_BYTE_MAX {
        assert(s[0] == v as u8);
    } else {
        let n: nat = if v <= 0xffff {
            2
        } else if v <= 0xffff_ffff {
            4
        } else {
            8
        };
        lemma_le_round_trip(v, n);
        assert(varint_tail(s[0]) == n);
        assert(s.subrange(1, 1 + n as int) =~= le_bytes(v, n));
    }
}

/// A variable-length integer takes up at least one byte and at most nine,
/// and never more than there are.
pub proof fn lemma_parse_is_short(s: Seq<u8>, widest: u8)
    ensures
        parse_varint(s, widest) matches Some((v, n)) ==> 1 <= n <= 9 && n <= s.len(),
{
}

/// The two encodings of a signed number undo each other.
pub proof fn lemma_zigzag_round_trip(v: int)
    ensures
        unzigzag(zigzag(v)) == v,
{
}

/// Writes a `u16` as a variable-length integer.
///
/// Trusted: `bincode::encode_to_vec` on a `u16` under the standard
/// configuration writes the value itself in one byte if it is at most 250,
/// and else the tag 251 and its two bytes, lowest first.
#[verifier::external_body]
pub(crate) fn put_u16(v: u16) -> (r: Vec<u8>)
    ensures
        r@ == varint(v as nat),
{
    match bincode::encode_to_vec(v, bincode::config::standard()) {
        Ok(bytes) => bytes,
        Err(_) => Vec::new(),
    }
}

/// Writes a `u32` as a variable-length integer.
///
/// Trusted: `bincode::encode_to_vec` on a `u32` under the standard
/// configuration writes the shortest of the one-byte form, the tag 251 with
/// two bytes and the tag 252 with four bytes, lowest byte first.
#[verifier::external_body]
pub(crate) fn put_u32(v: u32) -> (r: Vec<u8>)
    ensures
        r@ == varint(v as nat),
{
    match bincode::encode_to_vec(v, bincode::config::standard()) {
        Ok(bytes) => bytes,
        Err(_) => Vec::new(),
    }
}

/// Writes an `i64` as a variable-length integer.
///
/// Trusted: `bincode::encode_to_vec` on an `i64` under the standard
/// configuration maps the value to an unsigned one, `2 v` for a
/// non-negative `v` and `-2 v - 1` for a negative one, and writes that as
/// the shortest form of up to eight bytes after the tag.
#[verifier::external_body]
pub(crate) fn put_i64(v: i64) -> (r: Vec<u8>)
    ensures
        r@ == varint(zigzag(v as int)),
{
    match bincode::encode_to_vec(v, bincode::config::standard()) {
        Ok(bytes) => bytes,
        Err(_) => Vec::new(),
    }
}

/// Reads a `u16` from the start of `src`, with the number of bytes read.
///
/// Trusted: `bincode::decode_from_slice` for a `u16` under the standard
/// configuration takes a first byte of at most 250 as the value, reads two
/// more bytes after the tag 251, and fails on any other tag and on a slice
/// that ends too early.
#[verifier::external_body]
pub(crate) fn take_u16(src: &[u8]) -> (r: Option<(u16, usize)>)
    ensures
        match parse_varint(src@, U16_BYTE) {
            Some((v, n)) => r == Some((v as u16, n as usize)),
            None => r is None,
        },
{
    match bincode::decode_from_slice::<u16, _>(src, bincode::config::standard()) {
        Ok(pair) => Some(pair),
        Err(_) => None,
    }
}

/// Reads a `u32` from the start of `src`, with the number of bytes read.
///
/// Trusted: `bincode::decode_from_slice` for a `u32` under the standard
/// configuration takes a first byte of at most 250 as the value, reads two
/// more bytes after the tag 251 and four after 252, and fails on any other
/// tag and on a slice that ends too early.
#[verifier::external_body]
pub(crate) fn take_u32(src: &[u8]) -> (r: Option<(u32, usize)>)
    ensures
        match parse_varint(src@, U32_BYTE) {
            Some((v, n)) => r == Some((v as u32, n as usize)),
            None => r is None,
        },
{
    match bincode::decode_from_slice::<u32, _>(src, bincode::config::standard()) {
        Ok(pair) => Some(pair),
        Err(_) => None,
    }
}

/// Reads an `i64` from the start of `src`, with the number of bytes read.
///
/// Trusted: `bincode::decode_from_slice` for an `i64` under the standard
/// configuration reads an unsigned variable-length integer of up to eight
/// bytes after its tag and takes an even `n` as `n / 2` and an odd one as
/// `-(n / 2) - 1`; it fails on any other tag and on a slice that ends too
/// early.
#[verifier::external_body]
pub(crate) fn take_i64(src: &[u8]) -> (r: Option<(i64, usize)>)
    ensures
        match parse_varint(src@, U64_BYTE) {
            Some((n, k)) => r == Some((unzigzag(n) as i64, k as usize)),
            None => r is None,
        },
{
    match bincode::decode_from_slice::<i64, _>(src, bincode::config::standard()) {
        Ok(pair) => Some(pair),
        Err(_) => None,
    }
}

/// The byte that ends a frame.
pub const FRAME_END: u8 = 0;

/// The longest payload that is framed, in bytes. A payload this short is
/// stuffed in one run.
pub const MAX_PAYLOAD: usize = 250;

/// Whether `s` is one frame: it ends with the closing byte and holds it
/// nowhere else.
pub open spec fn is_frame(s: Seq<u8>) -> bool {
    &&& s.len() > 0
    &&& s.last() == FRAME_END
    &&& forall|i: int| 0 <= i < s.len() - 1 ==> s[i] != FRAME_END
}

/// Whether `s` is soundly stuffed from place `at` on: it falls into runs,
/// each a count followed by one byte less than the count says, none of
/// them the closing byte, and the last run ends where `s` ends.
pub open spec fn stuffed_from(s: Seq<u8>, at: int) -> bool
    decreases s.len() - at,
{
    if at < 0 {
        false
    } else if at >= s.len() {
        at == s.len()
    } else {
        &&& s[at] != FRAME_END
        &&& at + s[at] <= s.len()
        &&& forall|j: int| at < j < at + s[at] ==> s[j] != FRAME_END
        &&& stuffed_from(s, at + s[at])
    }
}

/// Whether `frame` can be unwrapped: it is one frame, and what stands
/// before its closing byte is soundly stuffed.
pub open spec fn well_formed(frame: Seq<u8>) -> bool {
    is_frame(frame) && stuffed_from(frame.drop_last(), 0)
}

/// The frame that carries `payload`: the payload and its checksum,
/// stuffed so that no byte of them is the closing byte, and the closing
/// byte.
pub uninterp spec fn framed(payload: Seq<u8>) -> Seq<u8>;

/// The payload that `frame` carries, if its checksum is right.
pub uninterp spec fn unframed(frame: Seq<u8>) -> Option<Seq<u8>>;

/// Wraps `payload` into a frame.
///
/// Trusted: `framed::bytes::Codec::encode_to_slice` under the default
/// configuration stuffs the payload and its checksum into the buffer it is
/// given, which here has the length that `framed::bytes::max_encoded_len`
/// asks for, and ends them with the closing byte. No stuffed byte is the
/// closing byte, the stuffing is sound, and
/// `framed::bytes::Codec::decode_to_slice` gives the payload back. A
/// payload of more than 250 bytes is left out: its stuffing can take up
/// the one byte more than the buffer has.
#[verifier::external_body]
pub(crate) fn frame(payload: &[u8]) -> (r: Vec<u8>)
    requires
        payload@.len() <= MAX_PAYLOAD,
    ensures
        r@ == framed(payload@),
        well_formed(r@),
        unframed(r@) == Some(payload@),
{
    let mut buf = vec![0u8; framed::bytes::max_encoded_len(payload.len())];
    let mut codec = framed::bytes::Config::default().to_codec();
    match codec.encode_to_slice(payload, &mut buf) {
        Ok(len) => buf.truncate(len),
        Err(_) => buf.clear(),
    }
    buf
}

/// Unwraps the payload of `frame`.
///
/// Trusted: `framed::bytes::Codec::decode_to_slice` under the default
/// configuration undoes the stuffing of a frame and gives its payload if
/// the checksum that follows it is right, and fails otherwise. A frame that
/// is not well formed is left out: on unsound stuffing the call does not
/// return.
#[verifier::external_body]
pub(crate) fn unframe(frame: &[u8]) -> (r: Option<Vec<u8>>)
    requires
        well_formed(frame@),
    ensures
        match unframed(frame@) {
            Some(payload) => r matches Some(bytes) && bytes@ == payload,
            None => r is None,
        },
{
    let mut buf = vec![0u8; framed::bytes::max_decoded_len(frame.len())];
    let mut codec = framed::bytes::Config::default().to_codec();
    match codec.decode_to_slice(frame, &mut buf) {
        Ok(len) => {
            buf.truncate(len);
            Some(buf)
        },
        Err(_) => None,
    }
}

/// Whether `frame` can be unwrapped.
pub fn is_well_formed(frame: &[u8]) -> (r: bool)
    ensures
        r == well_formed(frame@),
{
    let n = frame.len();
    if n == 0 || frame[n - 1] != FRAME_END {
        return false;
    }
    let ghost body = frame@.drop_last();
    let mut at: usize = 0;
    while at < n - 1
        invariant
            n == frame@.len(),
            n > 0,
            frame@[n - 1] == FRAME_END,
            body == frame@.drop_last(),
            at <= n - 1,
            forall|i: int| 0 <= i < at ==> frame@[i] != FRAME_END,
            stuffed_from(body, 0) == stuffed_from(body, at as int),
        decreases n - 1 - at,
    {
        let count = frame[at] as usize;
        assert(body[at as int] == frame@[at as int]);
        if count == 0 || count > n - 1 - at {
            assert(!stuffed_from(body, at as int));
            proof {
                if count == 0 {
                    assert(!is_frame(frame@) || !stuffed_from(body, 0));
                }
            }
            return false;
        }
        let mut j: usize = at + 1;
        while j < at + count
            invariant
                n == frame@.len(),
                body == frame@.drop_last(),
                at < j <= at + count <= n - 1,
                forall|i: int| 0 <= i < j ==> frame@[i] != FRAME_END,
            decreases at + count - j,
        {
            if frame[j] == FRAME_END {
                assert(body[j as int] == FRAME_END);
                assert(!is_frame(frame@));
                return false;
            }
            j += 1;
        }
        proof {
            assert forall|i: int| at < i < at + count implies body[i] != FRAME_END by {
                assert(body[i] == frame@[i]);
            }
        }
        at = at + count;
    }
    true
}

/// Sets bit `bit` of `mask`.
///
/// Trusted: `bitset_core::BitSet::bit_set` on a `u16` ors the mask with
/// one shifted left by `bit`; a shift by sixteen or more overflows.
#[verifier::external_body]
pub(crate) fn bit_set(mask: u16, bit: usize) -> (r: u16)
    requires
        bit < 16,
    ensures
        r == mask | (1u16 << bit),
{
    let mut m = mask;
    bitset_core::BitSet::bit_set(&mut m, bit);
    m
}

/// Tests bit `bit` of `mask`.
///
/// Trusted: `bitset_core::BitSet::bit_test` on a `u16` ands the mask with
/// one shifted left by `bit` and says whether anything is left; a shift by
/// sixteen or more overflows.
#[verifier::external_body]
pub(crate) fn bit_test(mask: u16, bit: usize) -> (r: bool)
    requires
        bit < 16,
    ensures
        r == (mask & (1u16 << bit) != 0),
{
    bitset_core::BitSet::bit_test(&mask, bit)
}

/// A vector of at most `N` items that lives in place.
#[verifier::external_type_specification]
#[verifier::external_body]
#[verifier::reject_recursive_types(T)]
pub struct ExBoundedVec<T, const N: usize>(heapless::Vec<T, N>);

/// The bytes that a sample buffer holds, in order.
pub uninterp spec fn buffer_bytes(buffer: heapless::Vec<u8, 128>) -> Seq<u8>;

/// A sample buffer that holds `bytes`.
///
/// Trusted: `heapless::Vec::from_slice` gives a vector with the items of
/// the slice, in order, where they are no more than its capacity.
#[verifier::external_body]
pub(crate) fn buffer_from(bytes: &[u8]) -> (r: heapless::Vec<u8, 128>)
    requires
        bytes@.len() <= BUFFER_CAPACITY,
    ensures
        buffer_bytes(r) == bytes@,
{
    match heapless::Vec::from_slice(bytes) {
        Ok(buffer) => buffer,
        Err(_) => heapless::Vec::new(),
    }
}

/// The bytes of a sample buffer.
///
/// Trusted: `heapless::Vec::as_slice` gives the items that the vector
/// holds, in order; they are never more than its capacity.
#[verifier::external_body]
pub(crate) fn buffer_to_vec(buffer: &heapless::Vec<u8, 128>) -> (r: Vec<u8>)
    ensures
        r@ == buffer_bytes(*buffer),
        r@.len() <= BUFFER_CAPACITY,
{
    buffer.as_slice().to_vec()
}

} // verus!
