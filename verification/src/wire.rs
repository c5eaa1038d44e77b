//! Primitive wire layout: fixed-width little-endian integers, one-byte
//! booleans and length-prefixed byte strings, written and read by `bincode`
//! under its `legacy()` configuration (little endian, fixed-width integers,
//! no size limit).
//!
//! Every function marked `external_body` here makes one call into `bincode`;
//! its contract is taken on trust from that crate's source. Everything else
//! in this module is proved.
//!
//! The writing functions append to a vector. `bincode` reports a failure of
//! the sink it writes to; a vector has none, so what it reports is dropped.
//! The reading functions take the bytes that are left and say how many of
//! them they used.

use vstd::bytes::*;
use vstd::prelude::*;

verus! {

/// The error `bincode` reports when a primitive cannot be read. Nothing is
/// known of its contents here; it is only carried to the caller.
#[verifier::external_type_specification]
#[verifier::external_body]
pub struct ExDecodeError(bincode::error::DecodeError);

// ---------------------------------------------------------------------------
// Layout of each primitive, and the reading that inverts it
// ---------------------------------------------------------------------------

/// Layout of a `u8`: the byte itself.
pub open spec fn u8_wire(v: u8) -> Seq<u8> {
    seq![v]
}

/// Layout of a `bool`: one byte, 1 for `true` and 0 for `false`.
pub open spec fn bool_wire(v: bool) -> Seq<u8> {
    seq![if v { 1u8 } else { 0u8 }]
}

/// Layout of a `u32`: its four bytes, least significant first.
pub open spec fn u32_wire(v: u32) -> Seq<u8> {
    spec_u32_to_le_bytes(v)
}

/// Layout of an `i32`: the four bytes of its two's-complement bit pattern,
/// least significant first.
pub open spec fn i32_wire(v: i32) -> Seq<u8> {
    spec_u32_to_le_bytes(v as u32)
}

/// Layout of a `u64`: its eight bytes, least significant first.
pub open spec fn u64_wire(v: u64) -> Seq<u8> {
    spec_u64_to_le_bytes(v)
}

/// Layout of a byte string: its length as a `u64`, then the bytes.
pub open spec fn bytes_wire(v: Seq<u8>) -> Seq<u8> {
    u64_wire(v.len() as u64) + v
}

/// Reads a `u8` from the front of `s`, giving the value and what follows it.
pub open spec fn parse_u8(s: Seq<u8>) -> Option<(u8, Seq<u8>)> {
    if s.len() >= 1 {
        Some((s[0], s.skip(1)))
    } else {
        None
    }
}

/// Reads a `bool` from the front of `s`. Any byte other than 0 or 1 is
/// rejected.
pub open spec fn parse_bool(s: Seq<u8>) -> Option<(bool, Seq<u8>)> {
    if s.len() >= 1 && s[0] <= 1 {
        Some((s[0] == 1, s.skip(1)))
    } else {
        None
    }
}

/// Reads a `u32` from the front of `s`.
pub open spec fn parse_u32(s: Seq<u8>) -> Option<(u32, Seq<u8>)> {
    if s.len() >= 4 {
        Some((spec_u32_from_le_bytes(s.take(4)), s.skip(4)))
    } else {
        None
    }
}

/// Reads an `i32` from the front of `s`.
pub open spec fn parse_i32(s: Seq<u8>) -> Option<(i32, Seq<u8>)> {
    if s.len() >= 4 {
        Some((spec_u32_from_le_bytes(s.take(4)) as i32, s.skip(4)))
    } else {
        None
    }
}

/// Reads a `u64` from the front of `s`.
pub open spec fn parse_u64(s: Seq<u8>) -> Option<(u64, Seq<u8>)> {
    if s.len() >= 8 {
        Some((spec_u64_from_le_bytes(s.take(8)), s.skip(8)))
    } else {
        None
    }
}

/// Reads a length-prefixed byte string from the front of `s`. A length that
/// exceeds what follows it is rejected.
pub open spec fn parse_bytes(s: Seq<u8>) -> Option<(Seq<u8>, Seq<u8>)> {
    match parse_u64(s) {
        Some((n, rest)) => if n <= rest.len() {
            Some((rest.take(n as int), rest.skip(n as int)))
        } else {
            None
        },
        None => None,
    }
}

// ---------------------------------------------------------------------------
// Calls into bincode
// ---------------------------------------------------------------------------

/// `bincode::encode_into_std_write` at `u8`: appends the byte `v` to `out`.
#[verifier::external_body]
pub(crate) fn put_u8(out: &mut Vec<u8>, v: u8)
    ensures
        final(out)@ == old(out)@ + u8_wire(v),
{
    let _ = bincode::encode_into_std_write(v, out, bincode::config::legacy());
}

/// `bincode::encode_into_std_write` at `bool`: appends one byte, 1 or 0.
#[verifier::external_body]
pub(crate) fn put_bool(out: &mut Vec<u8>, v: bool)
    ensures
        final(out)@ == old(out)@ + bool_wire(v),
{
    let _ = bincode::encode_into_std_write(v, out, bincode::config::legacy());
}

/// `bincode::encode_into_std_write` at `u32`: appends the four little-endian
/// bytes of `v`.
#[verifier::external_body]
pub(crate) fn put_u32(out: &mut Vec<u8>, v: u32)
    ensures
        final(out)@ == old(out)@ + u32_wire(v),
{
    let _ = bincode::encode_into_std_write(v, out, bincode::config::legacy());
}

/// `bincode::encode_into_std_write` at `i32`: appends the four little-endian
/// bytes of the two's-complement pattern of `v`.
#[verifier::external_body]
pub(crate) fn put_i32(out: &mut Vec<u8>, v: i32)
    ensures
        final(out)@ == old(out)@ + i32_wire(v),
{
    let _ = bincode::encode_into_std_write(v, out, bincode::config::legacy());
}

/// `bincode::encode_into_std_write` at `u64`: appends the eight little-endian
/// bytes of `v`.
#[verifier::external_body]
pub(crate) fn put_u64(out: &mut Vec<u8>, v: u64)
    ensures
        final(out)@ == old(out)@ + u64_wire(v),
{
    let _ = bincode::encode_into_std_write(v, out, bincode::config::legacy());
}

/// `bincode::encode_into_std_write` at `&[u8]`: appends the length of `v` as
/// a `u64`, then the bytes of `v` unchanged.
#[verifier::external_body]
pub(crate) fn put_bytes(out: &mut Vec<u8>, v: &[u8])
    ensures
        final(out)@ == old(out)@ + bytes_wire(v@),
{
    let _ = bincode::encode_into_std_write(v, out, bincode::config::legacy());
}

/// `bincode::decode_from_slice` at `u8`: succeeds exactly when `src` is not
/// empty, returning its first byte and the count 1.
#[verifier::external_body]
pub(crate) fn take_u8(src: &[u8]) -> (r: Result<(u8, usize), bincode::error::DecodeError>)
    ensures
        match parse_u8(src@) {
            Some((v, rest)) => r matches Ok((w, n)) && w == v && n == 1,
            None => r is Err,
        },
{
    bincode::decode_from_slice(src, bincode::config::legacy())
}

/// `bincode::decode_from_slice` at `bool`: succeeds exactly when the first
/// byte of `src` exists and is 0 or 1, returning the flag and the count 1.
#[verifier::external_body]
pub(crate) fn take_bool(src: &[u8]) -> (r: Result<(bool, usize), bincode::error::DecodeError>)
    ensures
        match parse_bool(src@) {
            Some((v, rest)) => r matches Ok((w, n)) && w == v && n == 1,
            None => r is Err,
        },
{
    bincode::decode_from_slice(src, bincode::config::legacy())
}

/// `bincode::decode_from_slice` at `u32`: succeeds exactly when four bytes
/// are available, returning the value they spell and the count 4.
#[verifier::external_body]
pub(crate) fn take_u32(src: &[u8]) -> (r: Result<(u32, usize), bincode::error::DecodeError>)
    ensures
        match parse_u32(src@) {
            Some((v, rest)) => r matches Ok((w, n)) && w == v && n == 4,
            None => r is Err,
        },
{
    bincode::decode_from_slice(src, bincode::config::legacy())
}

/// `bincode::decode_from_slice` at `i32`: succeeds exactly when four bytes
/// are available, returning the value they spell and the count 4.
#[verifier::external_body]
pub(crate) fn take_i32(src: &[u8]) -> (r: Result<(i32, usize), bincode::error::DecodeError>)
    ensures
        match parse_i32(src@) {
            Some((v, rest)) => r matches Ok((w, n)) && w == v && n == 4,
            None => r is Err,
        },
{
    bincode::decode_from_slice(src, bincode::config::legacy())
}

/// `bincode::decode_from_slice` at `u64`: succeeds exactly when eight bytes
/// are available, returning the value they spell and the count 8.
#[verifier::external_body]
pub(crate) fn take_u64(src: &[u8]) -> (r: Result<(u64, usize), bincode::error::DecodeError>)
    ensures
        match parse_u64(src@) {
            Some((v, rest)) => r matches Ok((w, n)) && w == v && n == 8,
            None => r is Err,
        },
{
    bincode::decode_from_slice(src, bincode::config::legacy())
}

/// `bincode::borrow_decode_from_slice` at `&[u8]`: reads a `u64` length and
/// succeeds exactly when that many bytes follow it, returning a copy of them
/// and the count of bytes read, prefix included. Nothing is allocated before
/// the length has been held against what `src` still has.
#[verifier::external_body]
pub(crate) fn take_bytes(src: &[u8]) -> (r: Result<(Vec<u8>, usize), bincode::error::DecodeError>)
    ensures
        match parse_bytes(src@) {
            Some((v, rest)) => r matches Ok((w, n)) && w@ == v && n == 8 + v.len(),
            None => r is Err,
        },
{
    let r: Result<(&[u8], usize), _> =
        bincode::borrow_decode_from_slice(src, bincode::config::legacy());
    r.map(|(b, n)| (b.to_vec(), n))
}

// ---------------------------------------------------------------------------
// Reading inverts writing
// ---------------------------------------------------------------------------

/// Each written primitive has a fixed length.
pub proof fn lemma_wire_lengths()
    ensures
        forall|v: u8| #[trigger] u8_wire(v).len() == 1,
        forall|v: bool| #[trigger] bool_wire(v).len() == 1,
        forall|v: u32| #[trigger] u32_wire(v).len() == 4,
        forall|v: i32| #[trigger] i32_wire(v).len() == 4,
        forall|v: u64| #[trigger] u64_wire(v).len() == 8,
        forall|v: Seq<u8>| #[trigger] bytes_wire(v).len() == 8 + v.len(),
{
    lemma_auto_spec_u32_to_from_le_bytes();
    lemma_auto_spec_u64_to_from_le_bytes();
}

/// A `u8` written in front of `rest` is read back, leaving `rest`.
pub proof fn lemma_parse_u8(v: u8, rest: Seq<u8>)
    ensures
        parse_u8(u8_wire(v) + rest) == Some((v, rest)),
{
    assert((u8_wire(v) + rest).skip(1) =~= rest);
}

/// A `bool` written in front of `rest` is read back, leaving `rest`.
pub proof fn lemma_parse_bool(v: bool, rest: Seq<u8>)
    ensures
        parse_bool(bool_wire(v) + rest) == Some((v, rest)),
{
    assert((bool_wire(v) + rest).skip(1) =~= rest);
}

/// A `u32` written in front of `rest` is read back, leaving `rest`.
pub proof fn lemma_parse_u32(v: u32, rest: Seq<u8>)
    ensures
        parse_u32(u32_wire(v) + rest) == Some((v, rest)),
{
    lemma_auto_spec_u32_to_from_le_bytes();
    let s = u32_wire(v) + rest;
    assert(s.take(4) =~= u32_wire(v));
    assert(s.skip(4) =~= rest);
}

/// An `i32` written in front of `rest` is read back, leaving `rest`.
pub proof fn lemma_parse_i32(v: i32, rest: Seq<u8>)
    ensures
        parse_i32(i32_wire(v) + rest) == Some((v, rest)),
{
    lemma_auto_spec_u32_to_from_le_bytes();
    let s = i32_wire(v) + rest;
    assert(s.take(4) =~= i32_wire(v));
    assert(s.skip(4) =~= rest);
    assert(((v as u32) as i32) == v) by (bit_vector);
}

/// A `u64` written in front of `rest` is read back, leaving `rest`.
pub proof fn lemma_parse_u64(v: u64, rest: Seq<u8>)
    ensures
        parse_u64(u64_wire(v) + rest) == Some((v, rest)),
{
    lemma_auto_spec_u64_to_from_le_bytes();
    let s = u64_wire(v) + rest;
    assert(s.take(8) =~= u64_wire(v));
    assert(s.skip(8) =~= rest);
}

/// A byte string whose length fits a `u64`, written in front of `rest`, is
/// read back, leaving `rest`.
pub proof fn lemma_parse_bytes(v: Seq<u8>, rest: Seq<u8>)
    requires
        v.len() <= u64::MAX,
    ensures
        parse_bytes(bytes_wire(v) + rest) == Some((v, rest)),
{
    let n = v.len() as u64;
    assert(bytes_wire(v) + rest =~= u64_wire(n) + (v + rest));
    lemma_parse_u64(n, v + rest);
    assert((v + rest).take(n as int) =~= v);
    assert((v + rest).skip(n as int) =~= rest);
}

// ---------------------------------------------------------------------------
// What is read was written
// ---------------------------------------------------------------------------

/// Whatever `parse_u8` reads a value from starts with the layout of that
/// value.
pub proof fn lemma_parsed_u8(s: Seq<u8>)
    ensures
        parse_u8(s) matches Some((v, rest)) ==> s == u8_wire(v) + rest,
{
    if parse_u8(s) is Some {
        let (v, rest) = parse_u8(s).unwrap();
        assert(s =~= u8_wire(v) + rest);
    }
}

/// Whatever `parse_bool` reads a value from starts with the layout of that
/// value.
pub proof fn lemma_parsed_bool(s: Seq<u8>)
    ensures
        parse_bool(s) matches Some((v, rest)) ==> s == bool_wire(v) + rest,
{
    if parse_bool(s) is Some {
        let (v, rest) = parse_bool(s).unwrap();
        assert(s =~= bool_wire(v) + rest);
    }
}

/// Whatever `parse_u32` reads a value from starts with the layout of that
/// value.
pub proof fn lemma_parsed_u32(s: Seq<u8>)
    ensures
        parse_u32(s) matches Some((v, rest)) ==> s == u32_wire(v) + rest,
{
    lemma_auto_spec_u32_to_from_le_bytes();
    if parse_u32(s) is Some {
        let (v, rest) = parse_u32(s).unwrap();
        assert(u32_wire(v) == s.take(4));
        assert(s =~= s.take(4) + rest);
    }
}

/// Whatever `parse_i32` reads a value from starts with the layout of that
/// value.
pub proof fn lemma_parsed_i32(s: Seq<u8>)
    ensures
        parse_i32(s) matches Some((v, rest)) ==> s == i32_wire(v) + rest,
{
    lemma_auto_spec_u32_to_from_le_bytes();
    if parse_i32(s) is Some {
        let bits = spec_u32_from_le_bytes(s.take(4));
        let (v, rest) = parse_i32(s).unwrap();
        assert(((bits as i32) as u32) == bits) by (bit_vector);
        assert(i32_wire(v) == s.take(4));
        assert(s =~= s.take(4) + rest);
    }
}

/// Whatever `parse_u64` reads a value from starts with the layout of that
/// value.
pub proof fn lemma_parsed_u64(s: Seq<u8>)
    ensures
        parse_u64(s) matches Some((v, rest)) ==> s == u64_wire(v) + rest,
{
    lemma_auto_spec_u64_to_from_le_bytes();
    if parse_u64(s) is Some {
        let (v, rest) = parse_u64(s).unwrap();
        assert(u64_wire(v) == s.take(8));
        assert(s =~= s.take(8) + rest);
    }
}

/// Whatever `parse_bytes` reads a byte string from starts with the layout
/// of that byte string.
pub proof fn lemma_parsed_bytes(s: Seq<u8>)
    ensures
        parse_bytes(s) matches Some((v, rest)) ==> s == bytes_wire(v) + rest,
{
    if parse_bytes(s) is Some {
        let (n, after) = parse_u64(s).unwrap();
        let (v, rest) = parse_bytes(s).unwrap();
        lemma_parsed_u64(s);
        assert(v.len() == n);
        assert(after =~= v + rest);
        assert(s =~= bytes_wire(v) + rest);
    }
}

} // verus!
