//! Decoding of the messages that an SFTP server sends: the response
//! envelope, file attribute sets, status codes and the version handshake.

use vstd::prelude::*;

pub mod constants;
pub mod error;
pub mod wire;
pub mod extensions;
pub mod file_attrs;
pub mod response;

verus! {

/// A handle as it is borrowed from a decoded response.
pub type Handle = [u8];

/// A handle kept beyond the response it came in.
pub type HandleOwned = vec_strings::SmallArrayBox<u8, 4>;

} // verus!
