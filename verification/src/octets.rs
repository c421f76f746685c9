//! `bytes`'s buffers, which the bodies of requests and responses travel in.

use bytes::{Buf, BufMut, Bytes, BytesMut};
use vstd::prelude::*;

verus! {

#[verifier::external_type_specification]
#[verifier::external_body]
pub struct ExBytes(Bytes);

#[verifier::external_type_specification]
#[verifier::external_body]
pub struct ExBytesMut(BytesMut);

/// The bytes that are left in a buffer.
pub uninterp spec fn octets(b: Bytes) -> Seq<u8>;

/// The bytes that were put into a buffer.
pub uninterp spec fn written_octets(b: BytesMut) -> Seq<u8>;

/// The four bytes of an `i32`, the most significant first.
pub open spec fn be_octets(v: i32) -> Seq<u8> {
    let n = if v < 0 {
        v + 0x1_0000_0000
    } else {
        v as int
    };
    seq![
        (n / 0x100_0000 % 0x100) as u8,
        (n / 0x1_0000 % 0x100) as u8,
        (n / 0x100 % 0x100) as u8,
        (n % 0x100) as u8,
    ]
}

/// The `i32` whose four bytes these are, the most significant first.
pub open spec fn be_value(a: u8, b: u8, c: u8, d: u8) -> int {
    let n = a * 0x100_0000 + b * 0x1_0000 + c * 0x100 + d;
    if n >= 0x8000_0000 {
        n - 0x1_0000_0000
    } else {
        n
    }
}

/// The bytes of an `i32` give it back.
pub proof fn law_be_octets(v: i32)
    ensures
        ({
            let o = be_octets(v);
            be_value(o[0], o[1], o[2], o[3]) == v
        }),
{
}

/// `BytesMut::new`: an empty buffer.
#[verifier::external_body]
pub(crate) fn octets_new() -> (r: BytesMut)
    ensures
        written_octets(r) == Seq::<u8>::empty(),
{
    BytesMut::new()
}

/// `BufMut::put_u8` for `BytesMut`: one byte goes to the end.
#[verifier::external_body]
pub(crate) fn put_u8(b: &mut BytesMut, v: u8)
    ensures
        written_octets(*final(b)) == written_octets(*old(b)).push(v),
{
    b.put_u8(v);
}

/// `BufMut::put_i32` for `BytesMut`: four bytes go to the end, the most significant first.
#[verifier::external_body]
pub(crate) fn put_i32(b: &mut BytesMut, v: i32)
    ensures
        written_octets(*final(b)) == written_octets(*old(b)) + be_octets(v),
{
    b.put_i32(v);
}

/// `BufMut::put` for `BytesMut`, of a slice: the bytes go to the end.
#[verifier::external_body]
pub(crate) fn put_slice(b: &mut BytesMut, v: &[u8])
    ensures
        written_octets(*final(b)) == written_octets(*old(b)) + v@,
{
    b.put(v);
}

/// `BufMut::put` for `BytesMut`, of another buffer: its bytes go to the end.
#[verifier::external_body]
pub(crate) fn put_octets(b: &mut BytesMut, v: Bytes)
    ensures
        written_octets(*final(b)) == written_octets(*old(b)) + octets(v),
{
    b.put(v);
}

/// `BytesMut::freeze`: the same bytes, to be read.
#[verifier::external_body]
pub(crate) fn freeze(b: BytesMut) -> (r: Bytes)
    ensures
        octets(r) == written_octets(b),
{
    b.freeze()
}

/// `Bytes`'s `to_vec`, by way of its slice: the same bytes.
#[verifier::external_body]
pub(crate) fn octets_to_vec(b: &Bytes) -> (r: Vec<u8>)
    ensures
        r@ == octets(*b),
{
    b.to_vec()
}

/// `Bytes`'s `Clone`: the same bytes.
#[verifier::external_body]
pub(crate) fn octets_clone(b: &Bytes) -> (r: Bytes)
    ensures
        octets(r) == octets(*b),
{
    b.clone()
}

/// `Buf::remaining` for `Bytes`: how many bytes are left.
#[verifier::external_body]
pub(crate) fn remaining(b: &Bytes) -> (r: usize)
    ensures
        r == octets(*b).len(),
{
    b.remaining()
}

/// `Buf::get_u8` for `Bytes`: takes the first byte.
#[verifier::external_body]
pub(crate) fn get_u8(b: &mut Bytes) -> (r: u8)
    requires
        octets(*old(b)).len() >= 1,
    ensures
        r == octets(*old(b))[0],
        octets(*final(b)) == octets(*old(b)).skip(1),
{
    b.get_u8()
}

/// `Buf::get_i32` for `Bytes`: takes the first four bytes, the most significant first.
#[verifier::external_body]
pub(crate) fn get_i32(b: &mut Bytes) -> (r: i32)
    requires
        octets(*old(b)).len() >= 4,
    ensures
        r == be_value(
            octets(*old(b))[0],
            octets(*old(b))[1],
            octets(*old(b))[2],
            octets(*old(b))[3],
        ),
        octets(*final(b)) == octets(*old(b)).skip(4),
{
    b.get_i32()
}

} // verus!
