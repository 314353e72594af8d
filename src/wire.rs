//! The primitive fields of the wire format: big-endian integers and
//! strings with a four-byte length prefix.  The bytes are decoded by
//! `ssh_format`; what each read yields is stated here over byte sequences.
use vstd::prelude::*;
use vstd::utf8::*;

use crate::error::Error;

verus! {

/// The big-endian integer held by the first four bytes of `b`.
pub open spec fn be_u32(b: Seq<u8>) -> int {
    b[0] as int * 0x1000000 + b[1] as int * 0x10000 + b[2] as int * 0x100 + b[3] as int
}

/// The big-endian integer held by the first eight bytes of `b`.
pub open spec fn be_u64(b: Seq<u8>) -> int {
    be_u32(b) * 0x100000000 + be_u32(b.subrange(4, 8))
}

pub open spec fn parse_u8(s: Seq<u8>) -> Result<(u8, Seq<u8>), Error> {
    if s.len() < 1 {
        Err(Error::Eof)
    } else {
        Ok((s[0], s.subrange(1, s.len() as int)))
    }
}

pub open spec fn parse_u32(s: Seq<u8>) -> Result<(u32, Seq<u8>), Error> {
    if s.len() < 4 {
        Err(Error::Eof)
    } else {
        Ok((be_u32(s) as u32, s.subrange(4, s.len() as int)))
    }
}

pub open spec fn parse_u64(s: Seq<u8>) -> Result<(u64, Seq<u8>), Error> {
    if s.len() < 8 {
        Err(Error::Eof)
    } else {
        Ok((be_u64(s) as u64, s.subrange(8, s.len() as int)))
    }
}

/// A length-prefixed byte string: a `u32` count, then that many bytes.
pub open spec fn parse_bytes(s: Seq<u8>) -> Result<(Seq<u8>, Seq<u8>), Error> {
    match parse_u32(s) {
        Err(e) => Err(e),
        Ok((n, rest)) => if rest.len() < n {
            Err(Error::Eof)
        } else {
            Ok((rest.subrange(0, n as int), rest.subrange(n as int, rest.len() as int)))
        },
    }
}

/// A length-prefixed byte string whose bytes must be valid UTF-8.
pub open spec fn parse_str(s: Seq<u8>) -> Result<(Seq<char>, Seq<u8>), Error> {
    match parse_bytes(s) {
        Err(e) => Err(e),
        Ok((b, rest)) => if valid_utf8(b) {
            Ok((decode_utf8(b), rest))
        } else {
            Err(Error::InvalidStr)
        },
    }
}

/// An executable read `r` did what the spec-level parse `p` says: the same
/// value and the same remaining bytes, or the same error.
pub open spec fn decoded_as<T: View>(
    r: Result<(T, &[u8]), Error>,
    p: Result<(T::V, Seq<u8>), Error>,
) -> bool {
    match r {
        Ok((v, rest)) => p == Ok::<(T::V, Seq<u8>), Error>((v@, rest@)),
        Err(e) => p == Err::<(T::V, Seq<u8>), Error>(e),
    }
}

/// Relies on `ssh_format::from_bytes::<u8>`: it takes the first byte, and
/// fails with `Eof` (its only error for this type) on an empty buffer.
#[verifier::external_body]
fn from_bytes_u8(s: &[u8]) -> (r: Result<(u8, &[u8]), Error>)
    ensures
        decoded_as(r, parse_u8(s@)),
{
    ssh_format::from_bytes::<u8>(s).map_err(|_| Error::Eof)
}

/// Relies on `ssh_format::from_bytes::<u32>`: it reads four bytes as a
/// big-endian integer, and fails with `Eof` (its only error for this type)
/// when fewer remain.
#[verifier::external_body]
fn from_bytes_u32(s: &[u8]) -> (r: Result<(u32, &[u8]), Error>)
    ensures
        decoded_as(r, parse_u32(s@)),
{
    ssh_format::from_bytes::<u32>(s).map_err(|_| Error::Eof)
}

/// Relies on `ssh_format::from_bytes::<u64>`: it reads eight bytes as a
/// big-endian integer, and fails with `Eof` (its only error for this type)
/// when fewer remain.
#[verifier::external_body]
fn from_bytes_u64(s: &[u8]) -> (r: Result<(u64, &[u8]), Error>)
    ensures
        decoded_as(r, parse_u64(s@)),
{
    ssh_format::from_bytes::<u64>(s).map_err(|_| Error::Eof)
}

/// Relies on `ssh_format::from_bytes::<&str>`: it reads a `u32` length and
/// borrows that many bytes, which `str::from_utf8` checks; its one error
/// once the bytes are there is `InvalidStr`.  The length is required to fit,
/// so that the decoder never takes its path that allocates the whole length.
#[verifier::external_body]
fn from_bytes_str<'a>(s: &'a [u8]) -> (r: Result<(&'a str, &'a [u8]), Error>)
    requires
        parse_bytes(s@) is Ok,
    ensures
        decoded_as(r, parse_str(s@)),
{
    ssh_format::from_bytes::<&str>(s).map_err(|_| Error::InvalidStr)
}

/// Relies on `ssh_format::from_bytes::<Box<[u8]>>`: it reads a `u32` count
/// and then that many single bytes.  The count is required to fit, and then
/// the read cannot fail.
#[verifier::external_body]
fn from_bytes_boxed_bytes(s: &[u8]) -> (r: Result<(Box<[u8]>, &[u8]), Error>)
    requires
        parse_bytes(s@) is Ok,
    ensures
        decoded_as(r, parse_bytes(s@)),
{
    ssh_format::from_bytes::<Box<[u8]>>(s).map_err(|_| Error::Eof)
}

pub fn read_u8(s: &[u8]) -> (r: Result<(u8, &[u8]), Error>)
    ensures
        decoded_as(r, parse_u8(s@)),
{
    from_bytes_u8(s)
}

pub fn read_u32(s: &[u8]) -> (r: Result<(u32, &[u8]), Error>)
    ensures
        decoded_as(r, parse_u32(s@)),
{
    from_bytes_u32(s)
}

pub fn read_u64(s: &[u8]) -> (r: Result<(u64, &[u8]), Error>)
    ensures
        decoded_as(r, parse_u64(s@)),
{
    from_bytes_u64(s)
}

/// Whether the length prefix at the start of `s` announces no more bytes
/// than follow it.
fn length_fits(s: &[u8]) -> (r: Result<(), Error>)
    ensures
        match r {
            Ok(_) => parse_bytes(s@) is Ok,
            Err(e) => parse_bytes(s@) == Err::<(Seq<u8>, Seq<u8>), Error>(e),
        },
{
    match from_bytes_u32(s) {
        Err(e) => Err(e),
        Ok((n, rest)) => if rest.len() < n as usize {
            Err(Error::Eof)
        } else {
            Ok(())
        },
    }
}

/// Reads a length-prefixed UTF-8 string, borrowed from `s`.
pub fn read_str(s: &[u8]) -> (r: Result<(&str, &[u8]), Error>)
    ensures
        decoded_as(r, parse_str(s@)),
{
    match length_fits(s) {
        Err(e) => Err(e),
        Ok(_) => from_bytes_str(s),
    }
}

/// Reads a length-prefixed byte string into an owned buffer.
pub fn read_bytes(s: &[u8]) -> (r: Result<(Box<[u8]>, &[u8]), Error>)
    ensures
        decoded_as(r, parse_bytes(s@)),
{
    match length_fits(s) {
        Err(e) => Err(e),
        Ok(_) => from_bytes_boxed_bytes(s),
    }
}

} // verus!
