//! File attributes: optional fields whose presence a bitmask announces.
use vstd::prelude::*;

use crate::constants::{
    SSH_FILEXFER_ATTR_ACMODTIME, SSH_FILEXFER_ATTR_EXTENDED, SSH_FILEXFER_ATTR_PERMISSIONS,
    SSH_FILEXFER_ATTR_SIZE, SSH_FILEXFER_ATTR_UIDGID,
};
use crate::error::Error;
use crate::extensions::{parse_extensions, read_extensions, Extensions};
use crate::wire::{be_u32, decoded_as, parse_u32, parse_u64, read_u32, read_u64};

verus! {

/// What a `FileAttrs` holds: the flags word and each optional field.
pub struct FileAttrsView {
    pub flags: u32,
    pub size: Option<u64>,
    pub id: Option<(u32, u32)>,
    pub permissions: Option<u32>,
    pub time: Option<(u32, u32)>,
    pub extensions: Option<Seq<(Seq<char>, Seq<char>)>>,
}

impl FileAttrsView {
    /// Each field is present exactly when its bit is set in `flags`.
    pub open spec fn consistent(self) -> bool {
        &&& (self.flags & SSH_FILEXFER_ATTR_SIZE != 0) == self.size is Some
        &&& (self.flags & SSH_FILEXFER_ATTR_UIDGID != 0) == self.id is Some
        &&& (self.flags & SSH_FILEXFER_ATTR_PERMISSIONS != 0) == self.permissions is Some
        &&& (self.flags & SSH_FILEXFER_ATTR_ACMODTIME != 0) == self.time is Some
        &&& (self.flags & SSH_FILEXFER_ATTR_EXTENDED != 0) == self.extensions is Some
    }
}

pub open spec fn ext_view(e: Option<Extensions>) -> Option<Seq<(Seq<char>, Seq<char>)>> {
    match e {
        Some(x) => Some(x@),
        None => None,
    }
}

#[derive(Debug, Clone)]
pub struct FileAttrs {
    flags: u32,
    /// present only if flag SSH_FILEXFER_ATTR_SIZE
    size: Option<u64>,
    /// present only if flag SSH_FILEXFER_ATTR_UIDGID; uid and gid
    id: Option<(u32, u32)>,
    /// present only if flag SSH_FILEXFER_ATTR_PERMISSIONS
    permissions: Option<u32>,
    /// present only if flag SSH_FILEXFER_ATTR_ACMODTIME; atime and mtime
    time: Option<(u32, u32)>,
    /// present only if flag SSH_FILEXFER_ATTR_EXTENDED
    extensions: Option<Extensions>,
}

impl View for FileAttrs {
    type V = FileAttrsView;

    closed spec fn view(&self) -> FileAttrsView {
        FileAttrsView {
            flags: self.flags,
            size: self.size,
            id: self.id,
            permissions: self.permissions,
            time: self.time,
            extensions: ext_view(self.extensions),
        }
    }
}

/// An attribute set with no field and no flag.
pub open spec fn empty_attrs() -> FileAttrsView {
    FileAttrsView {
        flags: 0,
        size: None,
        id: None,
        permissions: None,
        time: None,
        extensions: None,
    }
}

impl Default for FileAttrs {
    fn default() -> (r: Self)
        ensures
            r@ == empty_attrs(),
    {
        FileAttrs {
            flags: 0,
            size: None,
            id: None,
            permissions: None,
            time: None,
            extensions: None,
        }
    }
}

impl FileAttrs {
    pub fn new() -> (r: Self)
        ensures
            r@ == empty_attrs(),
            r@.consistent(),
    {
        let r = Self::default();
        assert(0u32 & SSH_FILEXFER_ATTR_SIZE == 0 && 0u32 & SSH_FILEXFER_ATTR_UIDGID == 0
            && 0u32 & SSH_FILEXFER_ATTR_PERMISSIONS == 0 && 0u32 & SSH_FILEXFER_ATTR_ACMODTIME == 0
            && 0u32 & SSH_FILEXFER_ATTR_EXTENDED == 0) by (bit_vector);
        r
    }

    pub fn set_size(&mut self, size: u64)
        ensures
            final(self)@ == (FileAttrsView {
                flags: old(self)@.flags | SSH_FILEXFER_ATTR_SIZE,
                size: Some(size),
                ..old(self)@
            }),
            old(self)@.consistent() ==> final(self)@.consistent(),
    {
        proof {
            lemma_set_flag(self.flags);
        }
        self.flags = self.flags | SSH_FILEXFER_ATTR_SIZE;
        self.size = Some(size);
    }

    pub fn set_uid(&mut self, uid: u32, gid: u32)
        ensures
            final(self)@ == (FileAttrsView {
                flags: old(self)@.flags | SSH_FILEXFER_ATTR_UIDGID,
                id: Some((uid, gid)),
                ..old(self)@
            }),
            old(self)@.consistent() ==> final(self)@.consistent(),
    {
        proof {
            lemma_set_flag(self.flags);
        }
        self.flags = self.flags | SSH_FILEXFER_ATTR_UIDGID;
        self.id = Some((uid, gid));
    }

    pub fn set_permissions(&mut self, permissions: u32)
        ensures
            final(self)@ == (FileAttrsView {
                flags: old(self)@.flags | SSH_FILEXFER_ATTR_PERMISSIONS,
                permissions: Some(permissions),
                ..old(self)@
            }),
            old(self)@.consistent() ==> final(self)@.consistent(),
    {
        proof {
            lemma_set_flag(self.flags);
        }
        self.flags = self.flags | SSH_FILEXFER_ATTR_PERMISSIONS;
        self.permissions = Some(permissions);
    }

    pub fn set_time(&mut self, atime: u32, mtime: u32)
        ensures
            final(self)@ == (FileAttrsView {
                flags: old(self)@.flags | SSH_FILEXFER_ATTR_ACMODTIME,
                time: Some((atime, mtime)),
                ..old(self)@
            }),
            old(self)@.consistent() ==> final(self)@.consistent(),
    {
        proof {
            lemma_set_flag(self.flags);
        }
        self.flags = self.flags | SSH_FILEXFER_ATTR_ACMODTIME;
        self.time = Some((atime, mtime));
    }

    pub fn set_extensions(&mut self, extensions: Extensions)
        ensures
            final(self)@ == (FileAttrsView {
                flags: old(self)@.flags | SSH_FILEXFER_ATTR_EXTENDED,
                extensions: Some(extensions@),
                ..old(self)@
            }),
            old(self)@.consistent() ==> final(self)@.consistent(),
    {
        proof {
            lemma_set_flag(self.flags);
        }
        self.flags = self.flags | SSH_FILEXFER_ATTR_EXTENDED;
        self.extensions = Some(extensions);
    }

    /// The flags word.
    pub fn get_flags(&self) -> (r: u32)
        ensures
            r == self@.flags,
    {
        self.flags
    }

    pub fn get_size(&self) -> (r: Option<u64>)
        ensures
            r == self@.size,
    {
        self.size
    }

    /// Return uid and gid
    pub fn get_id(&self) -> (r: Option<(u32, u32)>)
        ensures
            r == self@.id,
    {
        self.id
    }

    pub fn get_permissions(&self) -> (r: Option<u32>)
        ensures
            r == self@.permissions,
    {
        self.permissions
    }

    /// Return atime and mtime
    pub fn get_time(&self) -> (r: Option<(u32, u32)>)
        ensures
            r == self@.time,
    {
        self.time
    }

    pub fn get_extensions(&self) -> (r: &Option<Extensions>)
        ensures
            ext_view(*r) == self@.extensions,
    {
        &self.extensions
    }

    /// The extensions, to change in place.  Replacing `Some` by `None` or the
    /// reverse leaves the flags word as it was, so the caller keeps the
    /// presence of extensions as it found it.
    pub fn get_extensions_mut(&mut self) -> (r: &mut Option<Extensions>)
        ensures
            ext_view(*r) == old(self)@.extensions,
            final(self)@ == (FileAttrsView { extensions: ext_view(*final(r)), ..old(self)@ }),
    {
        &mut self.extensions
    }

    /// Decodes an attribute set from the start of `s`: the flags word, then
    /// each field whose bit is set, in the order size, uid and gid,
    /// permissions, atime and mtime, extensions.  Returns the bytes after it.
    /// `TooLong` comes only from an extension list whose strings would not
    /// fit in one `Strings`.
    pub fn from_bytes(s: &[u8]) -> (r: Result<(FileAttrs, &[u8]), Error>)
        ensures
            decoded_as(r, parse_attrs(s@)),
            r is Ok ==> r->Ok_0.1@.len() <= s@.len(),
    {
        let (flags, s1) = match read_u32(s) {
            Err(e) => return Err(e),
            Ok(v) => v,
        };
        let mut attrs = FileAttrs::default();
        attrs.flags = flags;
        let mut cur = s1;
        if flags & SSH_FILEXFER_ATTR_SIZE != 0 {
            match read_u64(cur) {
                Err(e) => return Err(e),
                Ok((v, rest)) => {
                    attrs.size = Some(v);
                    cur = rest;
                },
            }
        }
        if flags & SSH_FILEXFER_ATTR_UIDGID != 0 {
            match read_u32_pair(cur) {
                Err(e) => return Err(e),
                Ok((v, rest)) => {
                    attrs.id = Some(v);
                    cur = rest;
                },
            }
        }
        if flags & SSH_FILEXFER_ATTR_PERMISSIONS != 0 {
            match read_u32(cur) {
                Err(e) => return Err(e),
                Ok((v, rest)) => {
                    attrs.permissions = Some(v);
                    cur = rest;
                },
            }
        }
        if flags & SSH_FILEXFER_ATTR_ACMODTIME != 0 {
            match read_u32_pair(cur) {
                Err(e) => return Err(e),
                Ok((v, rest)) => {
                    attrs.time = Some(v);
                    cur = rest;
                },
            }
        }
        if flags & SSH_FILEXFER_ATTR_EXTENDED != 0 {
            match read_extensions(cur) {
                Err(e) => return Err(e),
                Ok((v, rest)) => {
                    attrs.extensions = Some(v);
                    cur = rest;
                },
            }
        }
        Ok((attrs, cur))
    }
}

/// Setting one flag bit sets that bit and keeps every other.
proof fn lemma_set_flag(f: u32)
    ensures
        (f | SSH_FILEXFER_ATTR_SIZE) & SSH_FILEXFER_ATTR_SIZE != 0,
        (f | SSH_FILEXFER_ATTR_SIZE) & SSH_FILEXFER_ATTR_UIDGID == f & SSH_FILEXFER_ATTR_UIDGID,
        (f | SSH_FILEXFER_ATTR_SIZE) & SSH_FILEXFER_ATTR_PERMISSIONS == f & SSH_FILEXFER_ATTR_PERMISSIONS,
        (f | SSH_FILEXFER_ATTR_SIZE) & SSH_FILEXFER_ATTR_ACMODTIME == f & SSH_FILEXFER_ATTR_ACMODTIME,
        (f | SSH_FILEXFER_ATTR_SIZE) & SSH_FILEXFER_ATTR_EXTENDED == f & SSH_FILEXFER_ATTR_EXTENDED,
        (f | SSH_FILEXFER_ATTR_UIDGID) & SSH_FILEXFER_ATTR_UIDGID != 0,
        (f | SSH_FILEXFER_ATTR_UIDGID) & SSH_FILEXFER_ATTR_SIZE == f & SSH_FILEXFER_ATTR_SIZE,
        (f | SSH_FILEXFER_ATTR_UIDGID) & SSH_FILEXFER_ATTR_PERMISSIONS == f & SSH_FILEXFER_ATTR_PERMISSIONS,
        (f | SSH_FILEXFER_ATTR_UIDGID) & SSH_FILEXFER_ATTR_ACMODTIME == f & SSH_FILEXFER_ATTR_ACMODTIME,
        (f | SSH_FILEXFER_ATTR_UIDGID) & SSH_FILEXFER_ATTR_EXTENDED == f & SSH_FILEXFER_ATTR_EXTENDED,
        (f | SSH_FILEXFER_ATTR_PERMISSIONS) & SSH_FILEXFER_ATTR_PERMISSIONS != 0,
        (f | SSH_FILEXFER_ATTR_PERMISSIONS) & SSH_FILEXFER_ATTR_SIZE == f & SSH_FILEXFER_ATTR_SIZE,
        (f | SSH_FILEXFER_ATTR_PERMISSIONS) & SSH_FILEXFER_ATTR_UIDGID == f & SSH_FILEXFER_ATTR_UIDGID,
        (f | SSH_FILEXFER_ATTR_PERMISSIONS) & SSH_FILEXFER_ATTR_ACMODTIME == f & SSH_FILEXFER_ATTR_ACMODTIME,
        (f | SSH_FILEXFER_ATTR_PERMISSIONS) & SSH_FILEXFER_ATTR_EXTENDED == f & SSH_FILEXFER_ATTR_EXTENDED,
        (f | SSH_FILEXFER_ATTR_ACMODTIME) & SSH_FILEXFER_ATTR_ACMODTIME != 0,
        (f | SSH_FILEXFER_ATTR_ACMODTIME) & SSH_FILEXFER_ATTR_SIZE == f & SSH_FILEXFER_ATTR_SIZE,
        (f | SSH_FILEXFER_ATTR_ACMODTIME) & SSH_FILEXFER_ATTR_UIDGID == f & SSH_FILEXFER_ATTR_UIDGID,
        (f | SSH_FILEXFER_ATTR_ACMODTIME) & SSH_FILEXFER_ATTR_PERMISSIONS == f & SSH_FILEXFER_ATTR_PERMISSIONS,
        (f | SSH_FILEXFER_ATTR_ACMODTIME) & SSH_FILEXFER_ATTR_EXTENDED == f & SSH_FILEXFER_ATTR_EXTENDED,
        (f | SSH_FILEXFER_ATTR_EXTENDED) & SSH_FILEXFER_ATTR_EXTENDED != 0,
        (f | SSH_FILEXFER_ATTR_EXTENDED) & SSH_FILEXFER_ATTR_SIZE == f & SSH_FILEXFER_ATTR_SIZE,
        (f | SSH_FILEXFER_ATTR_EXTENDED) & SSH_FILEXFER_ATTR_UIDGID == f & SSH_FILEXFER_ATTR_UIDGID,
        (f | SSH_FILEXFER_ATTR_EXTENDED) & SSH_FILEXFER_ATTR_PERMISSIONS == f & SSH_FILEXFER_ATTR_PERMISSIONS,
        (f | SSH_FILEXFER_ATTR_EXTENDED) & SSH_FILEXFER_ATTR_ACMODTIME == f & SSH_FILEXFER_ATTR_ACMODTIME,
{
    assert((f | 1u32) & 1u32 != 0 && (f | 1u32) & 2u32 == f & 2u32 && (f | 1u32) & 4u32 == f & 4u32
        && (f | 1u32) & 8u32 == f & 8u32 && (f | 1u32) & 0x80000000u32 == f & 0x80000000u32)
        by (bit_vector);
    assert((f | 2u32) & 2u32 != 0 && (f | 2u32) & 1u32 == f & 1u32 && (f | 2u32) & 4u32 == f & 4u32
        && (f | 2u32) & 8u32 == f & 8u32 && (f | 2u32) & 0x80000000u32 == f & 0x80000000u32)
        by (bit_vector);
    assert((f | 4u32) & 4u32 != 0 && (f | 4u32) & 1u32 == f & 1u32 && (f | 4u32) & 2u32 == f & 2u32
        && (f | 4u32) & 8u32 == f & 8u32 && (f | 4u32) & 0x80000000u32 == f & 0x80000000u32)
        by (bit_vector);
    assert((f | 8u32) & 8u32 != 0 && (f | 8u32) & 1u32 == f & 1u32 && (f | 8u32) & 2u32 == f & 2u32
        && (f | 8u32) & 4u32 == f & 4u32 && (f | 8u32) & 0x80000000u32 == f & 0x80000000u32)
        by (bit_vector);
    assert((f | 0x80000000u32) & 0x80000000u32 != 0 && (f | 0x80000000u32) & 1u32 == f & 1u32
        && (f | 0x80000000u32) & 2u32 == f & 2u32 && (f | 0x80000000u32) & 4u32 == f & 4u32
        && (f | 0x80000000u32) & 8u32 == f & 8u32) by (bit_vector);
}

/// A field that is there only when `present`: a `u64`.
pub open spec fn parse_opt_u64(s: Seq<u8>, present: bool) -> Result<(Option<u64>, Seq<u8>), Error> {
    if !present {
        Ok((None, s))
    } else {
        match parse_u64(s) {
            Err(e) => Err(e),
            Ok((v, rest)) => Ok((Some(v), rest)),
        }
    }
}

/// A field that is there only when `present`: a `u32`.
pub open spec fn parse_opt_u32(s: Seq<u8>, present: bool) -> Result<(Option<u32>, Seq<u8>), Error> {
    if !present {
        Ok((None, s))
    } else {
        match parse_u32(s) {
            Err(e) => Err(e),
            Ok((v, rest)) => Ok((Some(v), rest)),
        }
    }
}

/// Two `u32` values, one after the other.
pub open spec fn parse_u32_pair(s: Seq<u8>) -> Result<((u32, u32), Seq<u8>), Error> {
    match parse_u32(s) {
        Err(e) => Err(e),
        Ok((a, s1)) => match parse_u32(s1) {
            Err(e) => Err(e),
            Ok((b, rest)) => Ok(((a, b), rest)),
        },
    }
}

/// A field that is there only when `present`: two `u32` values.
pub open spec fn parse_opt_u32_pair(s: Seq<u8>, present: bool) -> Result<(Option<(u32, u32)>, Seq<u8>), Error> {
    if !present {
        Ok((None, s))
    } else {
        match parse_u32_pair(s) {
            Err(e) => Err(e),
            Ok((v, rest)) => Ok((Some(v), rest)),
        }
    }
}

/// A field that is there only when `present`: an extension list.
pub open spec fn parse_opt_extensions(s: Seq<u8>, present: bool) -> Result<(Option<Seq<(Seq<char>, Seq<char>)>>, Seq<u8>), Error> {
    if !present {
        Ok((None, s))
    } else {
        match parse_extensions(s) {
            Err(e) => Err(e),
            Ok((v, rest)) => Ok((Some(v), rest)),
        }
    }
}

/// An attribute set: the flags word, then the fields whose bits are set.
pub open spec fn parse_attrs(s: Seq<u8>) -> Result<(FileAttrsView, Seq<u8>), Error> {
    match parse_u32(s) {
        Err(e) => Err(e),
        Ok((flags, s1)) => match parse_opt_u64(s1, flags & SSH_FILEXFER_ATTR_SIZE != 0) {
            Err(e) => Err(e),
            Ok((size, s2)) => match parse_opt_u32_pair(s2, flags & SSH_FILEXFER_ATTR_UIDGID != 0) {
                Err(e) => Err(e),
                Ok((id, s3)) => match parse_opt_u32(s3, flags & SSH_FILEXFER_ATTR_PERMISSIONS != 0) {
                    Err(e) => Err(e),
                    Ok((permissions, s4)) => match parse_opt_u32_pair(s4, flags & SSH_FILEXFER_ATTR_ACMODTIME != 0) {
                        Err(e) => Err(e),
                        Ok((time, s5)) => match parse_opt_extensions(s5, flags & SSH_FILEXFER_ATTR_EXTENDED != 0) {
                            Err(e) => Err(e),
                            Ok((extensions, rest)) => Ok((FileAttrsView { flags, size, id, permissions, time, extensions }, rest)),
                        },
                    },
                },
            },
        },
    }
}

fn read_u32_pair(s: &[u8]) -> (r: Result<((u32, u32), &[u8]), Error>)
    ensures
        decoded_as(r, parse_u32_pair(s@)),
{
    match read_u32(s) {
        Err(e) => Err(e),
        Ok((a, s1)) => match read_u32(s1) {
            Err(e) => Err(e),
            Ok((b, rest)) => Ok(((a, b), rest)),
        },
    }
}

/// Whatever an attribute set decodes to holds each field exactly when the
/// flags word that it was read with has that field's bit set.
pub proof fn lemma_decoded_attrs_consistent(s: Seq<u8>)
    requires
        parse_attrs(s) is Ok,
    ensures
        parse_attrs(s)->Ok_0.0.consistent(),
{
}

/// Decoding the same bytes twice gives equal attribute sets followed by the
/// same bytes, or the same error.
pub proof fn lemma_attrs_decode_deterministic(
    s: &[u8],
    r1: Result<(FileAttrs, &[u8]), Error>,
    r2: Result<(FileAttrs, &[u8]), Error>,
)
    requires
        decoded_as(r1, parse_attrs(s@)),
        decoded_as(r2, parse_attrs(s@)),
    ensures
        match (r1, r2) {
            (Ok((a1, t1)), Ok((a2, t2))) => a1@ == a2@ && t1@ == t2@,
            (Err(e1), Err(e2)) => e1 == e2,
            _ => false,
        },
{
}

/// The bytes that the fixed-size fields announced by `flags` take.
pub open spec fn fixed_fields_len(flags: u32) -> int {
    (if flags & SSH_FILEXFER_ATTR_SIZE != 0 { 8int } else { 0int })
        + (if flags & SSH_FILEXFER_ATTR_UIDGID != 0 { 8int } else { 0int })
        + (if flags & SSH_FILEXFER_ATTR_PERMISSIONS != 0 { 4int } else { 0int })
        + (if flags & SSH_FILEXFER_ATTR_ACMODTIME != 0 { 8int } else { 0int })
}

/// An attribute set whose flags announce no extension list decodes
/// whenever the bytes of the fields it announces follow the flags word: it
/// keeps that flags word, holds exactly the announced fields, and takes
/// exactly those bytes.
pub proof fn lemma_attrs_decode_when_fields_present(s: Seq<u8>)
    requires
        s.len() >= 4,
        (be_u32(s) as u32) & SSH_FILEXFER_ATTR_EXTENDED == 0,
        s.len() >= 4 + fixed_fields_len(be_u32(s) as u32),
    ensures
        parse_attrs(s) is Ok,
        parse_attrs(s)->Ok_0.0.flags == be_u32(s) as u32,
        parse_attrs(s)->Ok_0.0.consistent(),
        parse_attrs(s)->Ok_0.1.len() == s.len() - 4 - fixed_fields_len(be_u32(s) as u32),
{
}

} // verus!
