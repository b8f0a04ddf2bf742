//! Bounded access to the bytes of a raw frame.
//!
//! Every read and write of frame memory goes through this module. Each
//! accessor demands, as a precondition, that the bytes it touches lie inside
//! the frame; the decoders establish that with an explicit length check
//! before they touch anything.

use vstd::prelude::*;

verus! {

/// Why a frame could not be read.
#[derive(Clone, Copy, Debug, PartialEq, Eq, Structural)]
pub enum PacketError {
    /// The header asked for would reach past the end of the frame.
    OutOfBounds,
}

/// What is to happen to a frame once it has been inspected.
#[derive(Clone, Copy, Debug, PartialEq, Eq, Structural)]
pub enum Disposition {
    /// Let the frame continue on its way.
    Pass,
    /// Discard the frame.
    Drop,
    /// Send the frame out of the interface with this handle.
    Redirect(u32),
}

/// Whether `len` bytes starting at `offset` lie inside a frame of `frame_len` bytes.
pub open spec fn in_bounds(frame_len: int, offset: int, len: int) -> bool {
    offset + len <= frame_len
}

/// The 16-bit number held in network byte order at `s[i..i + 2]`.
pub open spec fn be16(s: Seq<u8>, i: int) -> u16 {
    (s[i] as int * 256 + s[i + 1] as int) as u16
}

/// The 32-bit number held in network byte order at `s[i..i + 4]`.
pub open spec fn be32(s: Seq<u8>, i: int) -> u32 {
    (s[i] as int * 16777216 + s[i + 1] as int * 65536 + s[i + 2] as int * 256 + s[i + 3] as int) as u32
}

/// The hardware address held at `s[i..i + 6]`.
pub open spec fn mac_at(s: Seq<u8>, i: int) -> [u8; 6] {
    [s[i], s[i + 1], s[i + 2], s[i + 3], s[i + 4], s[i + 5]]
}

/// `s` with `v` written in network byte order at `s[i..i + 2]`.
pub open spec fn store_be16(s: Seq<u8>, i: int, v: u16) -> Seq<u8> {
    s.update(i, (v / 256) as u8).update(i + 1, (v % 256) as u8)
}

/// `s` with `v` written in network byte order at `s[i..i + 4]`.
pub open spec fn store_be32(s: Seq<u8>, i: int, v: u32) -> Seq<u8> {
    s.update(i, (v / 16777216) as u8).update(i + 1, (v / 65536 % 256) as u8).update(
        i + 2,
        (v / 256 % 256) as u8,
    ).update(i + 3, (v % 256) as u8)
}

/// `s` with the hardware address `m` written at `s[i..i + 6]`.
pub open spec fn store_mac(s: Seq<u8>, i: int, m: [u8; 6]) -> Seq<u8> {
    s.update(i, m[0]).update(i + 1, m[1]).update(i + 2, m[2]).update(i + 3, m[3]).update(
        i + 4,
        m[4],
    ).update(i + 5, m[5])
}

/// The window of `len` bytes at `offset`, if the frame holds all of it.
///
/// The sum `offset + len` is never formed before it is known to fit, so the
/// check cannot be defeated by wrap-around.
pub fn ptr_at(frame: &[u8], offset: usize, len: usize) -> (view: Option<&[u8]>)
    ensures
        view is Some <==> in_bounds(frame@.len() as int, offset as int, len as int),
        view matches Some(w) ==> w@ == frame@.subrange(offset as int, offset + len),
{
    if offset > frame.len() || len > frame.len() - offset {
        return None;
    }
    Some(vstd::slice::slice_subrange(frame, offset, offset + len))
}

/// Checks that a header of `len` bytes at `offset` lies inside the frame.
pub fn check_bounds(frame: &[u8], offset: usize, len: usize) -> (r: Result<(), PacketError>)
    ensures
        r is Ok <==> in_bounds(frame@.len() as int, offset as int, len as int),
        r is Err ==> r == Err::<(), PacketError>(PacketError::OutOfBounds),
        frame@.len() <= usize::MAX,
{
    if offset > frame.len() || len > frame.len() - offset {
        Err(PacketError::OutOfBounds)
    } else {
        Ok(())
    }
}

/// Reads a 16-bit number in network byte order.
pub fn read_be16(frame: &[u8], i: usize) -> (v: u16)
    requires
        i + 2 <= frame@.len(),
    ensures
        v == be16(frame@, i as int),
{
    (frame[i] as u16) * 256 + (frame[i + 1] as u16)
}

/// Reads a 32-bit number in network byte order.
pub fn read_be32(frame: &[u8], i: usize) -> (v: u32)
    requires
        i + 4 <= frame@.len(),
    ensures
        v == be32(frame@, i as int),
{
    (frame[i] as u32) * 16777216 + (frame[i + 1] as u32) * 65536 + (frame[i + 2] as u32) * 256 + (
    frame[i + 3] as u32)
}

/// Reads a hardware address.
pub fn read_mac(frame: &[u8], i: usize) -> (m: [u8; 6])
    requires
        i + 6 <= frame@.len(),
    ensures
        m == mac_at(frame@, i as int),
{
    let m = [frame[i], frame[i + 1], frame[i + 2], frame[i + 3], frame[i + 4], frame[i + 5]];
    assert(m =~= mac_at(frame@, i as int));
    m
}

/// Writes a 16-bit number in network byte order.
pub fn write_be16(frame: &mut [u8], i: usize, v: u16)
    requires
        i + 2 <= old(frame)@.len(),
    ensures
        final(frame)@ == store_be16(old(frame)@, i as int, v),
{
    frame[i] = (v / 256) as u8;
    frame[i + 1] = (v % 256) as u8;
}

/// Writes a 32-bit number in network byte order.
pub fn write_be32(frame: &mut [u8], i: usize, v: u32)
    requires
        i + 4 <= old(frame)@.len(),
    ensures
        final(frame)@ == store_be32(old(frame)@, i as int, v),
{
    frame[i] = (v / 16777216) as u8;
    frame[i + 1] = (v / 65536 % 256) as u8;
    frame[i + 2] = (v / 256 % 256) as u8;
    frame[i + 3] = (v % 256) as u8;
}

/// Writes a hardware address.
pub fn write_mac(frame: &mut [u8], i: usize, m: &[u8; 6])
    requires
        i + 6 <= old(frame)@.len(),
    ensures
        final(frame)@ == store_mac(old(frame)@, i as int, *m),
{
    frame[i] = m[0];
    frame[i + 1] = m[1];
    frame[i + 2] = m[2];
    frame[i + 3] = m[3];
    frame[i + 4] = m[4];
    frame[i + 5] = m[5];
}

/// Whether two hardware addresses are the same.
pub fn mac_eq(a: &[u8; 6], b: &[u8; 6]) -> (r: bool)
    ensures
        r == (*a == *b),
{
    let r = a[0] == b[0] && a[1] == b[1] && a[2] == b[2] && a[3] == b[3] && a[4] == b[4] && a[5]
        == b[5];
    proof {
        if r {
            assert(*a =~= *b);
        }
    }
    r
}

/// A stored 32-bit number reads back unchanged, and the bytes around it keep
/// their values.
pub proof fn lemma_store_be32(s: Seq<u8>, i: int, v: u32)
    requires
        0 <= i,
        i + 4 <= s.len(),
    ensures
        store_be32(s, i, v).len() == s.len(),
        be32(store_be32(s, i, v), i) == v,
        forall|j: int| 0 <= j < s.len() && !(i <= j < i + 4) ==> store_be32(s, i, v)[j] == s[j],
{
}

/// A stored hardware address reads back unchanged, and the bytes around it
/// keep their values.
pub proof fn lemma_store_mac(s: Seq<u8>, i: int, m: [u8; 6])
    requires
        0 <= i,
        i + 6 <= s.len(),
    ensures
        store_mac(s, i, m).len() == s.len(),
        mac_at(store_mac(s, i, m), i) == m,
        forall|j: int| 0 <= j < s.len() && !(i <= j < i + 6) ==> store_mac(s, i, m)[j] == s[j],
{
    assert(mac_at(store_mac(s, i, m), i) =~= m);
}

} // verus!
