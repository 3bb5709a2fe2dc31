//! Memory regions that hold generated code.
//!
//! A region is an anonymous memory map.  It starts out writable, is filled
//! with a program, and is then switched to executable; the two states are
//! two different types, so a region is never writable and executable at
//! once.  What a region holds is named by [`writable_bytes`] and
//! [`sealed_bytes`], where it starts by [`region_base`].  The contracts of
//! the operations on a map say what the `memmap` crate does; they are
//! taken on trust and not proved.  [`fill`] is proved from them.

use vstd::prelude::*;
use memmap::{Mmap, MmapMut};

verus! {

/// A writable memory map, `memmap::MmapMut`; nothing is known of its
/// inside.
#[verifier::external_type_specification]
#[verifier::external_body]
pub struct ExMmapMut(memmap::MmapMut);

/// A read-only memory map, `memmap::Mmap`; nothing is known of its inside.
#[verifier::external_type_specification]
#[verifier::external_body]
pub struct ExMmap(memmap::Mmap);

/// The error of a system call, `std::io::Error`; nothing is known of its
/// inside.
#[verifier::external_type_specification]
#[verifier::external_body]
pub struct ExIoError(std::io::Error);

/// The bytes of a writable region, from its base address on.
pub uninterp spec fn writable_bytes(region: MmapMut) -> Seq<u8>;

/// The bytes of an executable region, from its base address on.
pub uninterp spec fn sealed_bytes(region: Mmap) -> Seq<u8>;

/// The address at which an executable region starts.  A map keeps the
/// address it was given for as long as it lives.
pub uninterp spec fn region_base(region: Mmap) -> usize;

/// Asks the system for a writable region of `length` bytes.
///
/// Calls `MmapMut::map_anon`, which either fails or yields a map of
/// exactly the requested length.
#[verifier::external_body]
pub(crate) fn map_writable(length: usize) -> (mapped: Result<MmapMut, std::io::Error>)
    ensures
        mapped matches Ok(region) ==> writable_bytes(region).len() == length,
{
    MmapMut::map_anon(length)
}

/// Stores one byte into a writable region.
///
/// Goes through `MmapMut::deref_mut`, which hands out the whole map as a
/// mutable byte slice, and stores into that slice: the byte at `at` is
/// replaced and every other byte stays.
#[verifier::external_body]
pub(crate) fn store_byte(region: &mut MmapMut, at: usize, byte: u8)
    requires
        at < writable_bytes(*old(region)).len(),
    ensures
        writable_bytes(*final(region)) == writable_bytes(*old(region)).update(at as int, byte),
{
    region[at] = byte;
}

/// Revokes write access to a region and makes it executable.
///
/// Calls `MmapMut::make_exec`, which changes the protection of the map
/// and hands the same memory back under the read-only type, or fails.
#[verifier::external_body]
pub(crate) fn seal_executable(region: MmapMut) -> (sealed: Result<Mmap, std::io::Error>)
    ensures
        sealed matches Ok(code) ==> sealed_bytes(code) == writable_bytes(region),
{
    region.make_exec()
}

/// Reads one byte of an executable region.
///
/// Goes through `Mmap::deref`, which hands out the whole map as a byte
/// slice, and reads from that slice.
#[verifier::external_body]
pub(crate) fn load_byte(region: &Mmap, at: usize) -> (byte: u8)
    requires
        at < sealed_bytes(*region).len(),
    ensures
        byte == sealed_bytes(*region)[at as int],
{
    region[at]
}

/// The address at which an executable region starts.
///
/// Goes through `Mmap::deref`, which hands out the whole map as a byte
/// slice beginning at the pointer the map holds, and takes the address of
/// that slice.  The map holds one pointer from the day it is made, so the
/// address is the same at every call; and a reference to a slice is never
/// null, so the address is not zero.
#[verifier::external_body]
pub(crate) fn base_address(region: &Mmap) -> (address: usize)
    ensures
        address == region_base(*region),
        address != 0,
{
    region.as_ptr() as usize
}

/// Copies `bytes` to the start of a writable region.  What follows them
/// in the region stays as it was.
pub fn fill(region: &mut MmapMut, bytes: &[u8])
    requires
        bytes@.len() <= writable_bytes(*old(region)).len(),
    ensures
        writable_bytes(*final(region)).len() == writable_bytes(*old(region)).len(),
        writable_bytes(*final(region)).subrange(0, bytes@.len() as int) == bytes@,
        writable_bytes(*final(region)).subrange(
            bytes@.len() as int,
            writable_bytes(*old(region)).len() as int,
        ) == writable_bytes(*old(region)).subrange(
            bytes@.len() as int,
            writable_bytes(*old(region)).len() as int,
        ),
{
    let mut at: usize = 0;
    while at < bytes.len()
        invariant
            at <= bytes@.len() <= writable_bytes(*old(region)).len(),
            writable_bytes(*region).len() == writable_bytes(*old(region)).len(),
            writable_bytes(*region).subrange(0, at as int) == bytes@.subrange(0, at as int),
            writable_bytes(*region).subrange(
                at as int,
                writable_bytes(*old(region)).len() as int,
            ) == writable_bytes(*old(region)).subrange(
                at as int,
                writable_bytes(*old(region)).len() as int,
            ),
        decreases bytes@.len() - at,
    {
        let ghost before = writable_bytes(*region);
        store_byte(region, at, bytes[at]);
        proof {
            let now = writable_bytes(*region);
            let whole = writable_bytes(*old(region));
            assert(now.subrange(0, at + 1) =~= bytes@.subrange(0, at + 1)) by {
                assert forall|k: int| 0 <= k < at + 1 implies now[k] == bytes@[k] by {
                    if k < at {
                        assert(before.subrange(0, at as int)[k] == bytes@.subrange(0, at as int)[k]);
                    }
                }
            }
            assert(now.subrange(at + 1, whole.len() as int) =~= whole.subrange(
                at + 1,
                whole.len() as int,
            )) by {
                assert forall|k: int| at + 1 <= k < whole.len() implies now[k] == whole[k] by {
                    assert(before.subrange(at as int, whole.len() as int)[k - at]
                        == whole.subrange(at as int, whole.len() as int)[k - at]);
                }
            }
        }
        at += 1;
    }
    assert(bytes@.subrange(0, at as int) =~= bytes@);
}

} // verus!
