//! Messages from the server: the version handshake and the responses to
//! requests, each selected by its leading type byte.
use vstd::prelude::*;

use crate::constants::{
    SSH_FXP_ATTRS, SSH_FXP_DATA, SSH_FXP_HANDLE, SSH_FXP_NAME, SSH_FXP_STATUS, SSH_FX_BAD_MESSAGE,
    SSH_FX_CONNECTION_LOST, SSH_FX_EOF, SSH_FX_FAILURE, SSH_FX_NO_CONNECTION, SSH_FX_NO_SUCH_FILE,
    SSH_FX_OK, SSH_FX_OP_UNSUPPORTED, SSH_FX_PERMISSION_DENIED,
};
use crate::error::Error;
use crate::extensions::{pairs_of, parse_strs_to_end, read_strs_to_end, Extensions};
use crate::constants::SSH_FILEXFER_ATTR_EXTENDED;
use crate::file_attrs::{
    fixed_fields_len, lemma_attrs_decode_when_fields_present, parse_attrs, FileAttrs, FileAttrsView,
};
use crate::wire::{
    be_u32, decoded_as, parse_bytes, parse_str, parse_u32, parse_u8, read_bytes, read_str, read_u32,
    read_u8,
};

verus! {

/// Relies on `<Box<str> as From<&str>>::from`: a boxed copy of `s`.
#[verifier::external_body]
fn boxed_str(s: &str) -> (r: Box<str>)
    ensures
        r@ == s@,
{
    Box::from(s)
}

/// Relies on `<Box<str> as Clone>::clone`: a boxed copy of the same string.
pub assume_specification[ <Box<str> as Clone>::clone ](b: &Box<str>) -> (r: Box<str>)
    ensures
        r@ == b@,
;

/// Relies on `Vec::into_boxed_slice`: the same items, boxed.
#[verifier::external_body]
fn boxed_entries(v: Vec<NameEntry>) -> (r: Box<[NameEntry]>)
    ensures
        r@ == v@,
{
    v.into_boxed_slice()
}

/// The outcome that a server reports in a Status response.
#[derive(Debug, Clone, Copy, PartialEq, Eq, Structural)]
pub enum StatusCode {
    Success,
    /// Indicates end-of-file condition.
    ///
    /// For SSH_FX_READ it means that no more data is available in the file,
    /// and for SSH_FX_READDIR it indicates that no more files are contained
    /// in the directory.
    Eof,
    /// is returned when a reference is made to a file which should exist
    /// but doesn't.
    NoSuchFile,
    /// Returned when the authenticated user does not have sufficient
    /// permissions to perform the operation.
    PermDenied,
    /// A generic catch-all error message.
    ///
    /// It should be returned if an error occurs for which there is no more
    /// specific error code defined.
    Failure,
    /// May be returned if a badly formatted packet or protocol
    /// incompatibility is detected.
    BadMessage,
    /// Indicates that an attempt was made to perform an operation which
    /// is not supported for the server.
    OpUnsupported,
}

impl View for StatusCode {
    type V = StatusCode;

    open spec fn view(&self) -> StatusCode {
        *self
    }
}

/// The status that a server may send under the integer `code`.  The two
/// pseudo-errors `SSH_FX_NO_CONNECTION` and `SSH_FX_CONNECTION_LOST` are
/// rejected like any unassigned integer.
pub open spec fn status_of(code: u32) -> Result<StatusCode, Error> {
    if code == SSH_FX_OK {
        Ok(StatusCode::Success)
    } else if code == SSH_FX_EOF {
        Ok(StatusCode::Eof)
    } else if code == SSH_FX_NO_SUCH_FILE {
        Ok(StatusCode::NoSuchFile)
    } else if code == SSH_FX_PERMISSION_DENIED {
        Ok(StatusCode::PermDenied)
    } else if code == SSH_FX_FAILURE {
        Ok(StatusCode::Failure)
    } else if code == SSH_FX_BAD_MESSAGE {
        Ok(StatusCode::BadMessage)
    } else if code == SSH_FX_OP_UNSUPPORTED {
        Ok(StatusCode::OpUnsupported)
    } else {
        Err(Error::InvalidStatusCode(code))
    }
}

pub open spec fn parse_status(s: Seq<u8>) -> Result<(StatusCode, Seq<u8>), Error> {
    match parse_u32(s) {
        Err(e) => Err(e),
        Ok((code, rest)) => match status_of(code) {
            Err(e) => Err(e),
            Ok(c) => Ok((c, rest)),
        },
    }
}

impl StatusCode {
    /// The status for a status integer received from a server.
    pub fn from_u32(code: u32) -> (r: Result<StatusCode, Error>)
        ensures
            r == status_of(code),
    {
        if code == SSH_FX_OK {
            Ok(StatusCode::Success)
        } else if code == SSH_FX_EOF {
            Ok(StatusCode::Eof)
        } else if code == SSH_FX_NO_SUCH_FILE {
            Ok(StatusCode::NoSuchFile)
        } else if code == SSH_FX_PERMISSION_DENIED {
            Ok(StatusCode::PermDenied)
        } else if code == SSH_FX_FAILURE {
            Ok(StatusCode::Failure)
        } else if code == SSH_FX_BAD_MESSAGE {
            Ok(StatusCode::BadMessage)
        } else if code == SSH_FX_OP_UNSUPPORTED {
            Ok(StatusCode::OpUnsupported)
        } else {
            Err(Error::InvalidStatusCode(code))
        }
    }

    /// Decodes a status integer from the start of `s`.
    pub fn from_bytes(s: &[u8]) -> (r: Result<(StatusCode, &[u8]), Error>)
        ensures
            decoded_as(r, parse_status(s@)),
    {
        match read_u32(s) {
            Err(e) => Err(e),
            Ok((code, rest)) => match StatusCode::from_u32(code) {
                Err(e) => Err(e),
                Ok(c) => Ok((c, rest)),
            },
        }
    }
}

impl Error {
    /// Whether this error rejects a status integer that only a client may
    /// produce.
    pub open spec fn is_pseudo_error(self) -> bool {
        match self {
            Error::InvalidStatusCode(code) => code == SSH_FX_NO_CONNECTION || code == SSH_FX_CONNECTION_LOST,
            _ => false,
        }
    }

    /// A sentence that says what went wrong.
    pub fn message(&self) -> (r: &'static str)
        ensures
            r@ == (match *self {
                Error::Eof => "EOF"@,
                Error::InvalidStr => "Invalid str"@,
                Error::InvalidPacketType(_) => "Invalid packet type"@,
                Error::InvalidStatusCode(_) => if self.is_pseudo_error() {
                    PSEUDO_ERROR_MESSAGE@
                } else {
                    "Invalid status code"@
                },
                Error::TooLong => "Too many strings or bytes in a string list"@,
            }),
    {
        match self {
            Error::Eof => "EOF",
            Error::InvalidStr => "Invalid str",
            Error::InvalidPacketType(_) => "Invalid packet type",
            Error::InvalidStatusCode(code) => if *code == SSH_FX_NO_CONNECTION || *code == SSH_FX_CONNECTION_LOST {
                PSEUDO_ERROR_MESSAGE
            } else {
                "Invalid status code"
            },
            Error::TooLong => "Too many strings or bytes in a string list",
        }
    }
}

pub const PSEUDO_ERROR_MESSAGE: &'static str = "Server MUST NOT return SSH_FX_NO_CONNECTION or SSH_FX_CONNECTION_LOST for they are pseudo-error that can only be generated locally.";

/// Entry in ResponseInner::Name
#[derive(Debug, Clone)]
pub struct NameEntry {
    filename: Box<str>,
    /// The format of the `longname' field is unspecified by this protocol.
    ///
    /// It MUST be suitable for use in the output of a directory listing
    /// command (in fact, the recommended operation for a directory listing
    /// command is to simply display this data).
    ///
    /// However, clients SHOULD NOT attempt to parse the longname field for file
    /// attributes, they SHOULD use the attrs field instead.
    ///
    /// The recommended format for the longname field is as follows:
    ///
    /// -rwxr-xr-x   1 mjos     staff      348911 Mar 25 14:29 t-filexfer
    /// 1234567890 123 12345678 12345678 12345678 123456789012
    longname: Box<str>,
    attrs: FileAttrs,
}

pub struct NameEntryView {
    pub filename: Seq<char>,
    pub longname: Seq<char>,
    pub attrs: FileAttrsView,
}

impl View for NameEntry {
    type V = NameEntryView;

    closed spec fn view(&self) -> NameEntryView {
        NameEntryView { filename: self.filename@, longname: self.longname@, attrs: self.attrs@ }
    }
}

/// A directory entry: file name, display line, attribute set.
pub open spec fn parse_entry(s: Seq<u8>) -> Result<(NameEntryView, Seq<u8>), Error> {
    match parse_str(s) {
        Err(e) => Err(e),
        Ok((filename, s1)) => match parse_str(s1) {
            Err(e) => Err(e),
            Ok((longname, s2)) => match parse_attrs(s2) {
                Err(e) => Err(e),
                Ok((attrs, rest)) => Ok((NameEntryView { filename, longname, attrs }, rest)),
            },
        },
    }
}

/// `n` directory entries, one after another.
pub open spec fn parse_entries(s: Seq<u8>, n: nat) -> Result<(Seq<NameEntryView>, Seq<u8>), Error>
    decreases n,
{
    if n == 0 {
        Ok((Seq::empty(), s))
    } else {
        match parse_entry(s) {
            Err(e) => Err(e),
            Ok((x, s1)) => match parse_entries(s1, (n - 1) as nat) {
                Err(e) => Err(e),
                Ok((xs, rest)) => Ok((seq![x] + xs, rest)),
            },
        }
    }
}

pub open spec fn entries_view(v: Seq<NameEntry>) -> Seq<NameEntryView> {
    v.map_values(|e: NameEntry| e@)
}

impl NameEntry {
    pub fn filename(&self) -> (r: &str)
        ensures
            r@ == self@.filename,
    {
        &self.filename
    }

    pub fn longname(&self) -> (r: &str)
        ensures
            r@ == self@.longname,
    {
        &self.longname
    }

    pub fn attrs(&self) -> (r: &FileAttrs)
        ensures
            r@ == self@.attrs,
    {
        &self.attrs
    }

    /// Decodes a directory entry from the start of `s`.
    pub fn from_bytes(s: &[u8]) -> (r: Result<(NameEntry, &[u8]), Error>)
        ensures
            decoded_as(r, parse_entry(s@)),
            r is Ok ==> r->Ok_0.1@.len() <= s@.len(),
    {
        let (filename, s1) = match read_str(s) {
            Err(e) => return Err(e),
            Ok(v) => v,
        };
        let (longname, s2) = match read_str(s1) {
            Err(e) => return Err(e),
            Ok(v) => v,
        };
        match FileAttrs::from_bytes(s2) {
            Err(e) => Err(e),
            Ok((attrs, rest)) => Ok((NameEntry { filename: boxed_str(filename), longname: boxed_str(longname), attrs }, rest)),
        }
    }
}

/// Reads `n` directory entries one after another.
fn read_entries(s: &[u8], n: u32) -> (r: Result<(Vec<NameEntry>, &[u8]), Error>)
    ensures
        match r {
            Ok((v, rest)) => parse_entries(s@, n as nat) == Ok::<(Seq<NameEntryView>, Seq<u8>), Error>((entries_view(v@), rest@)),
            Err(e) => parse_entries(s@, n as nat) == Err::<(Seq<NameEntryView>, Seq<u8>), Error>(e),
        },
{
    // The count comes from the peer: reserve no more than the bytes at hand
    // could hold, each entry taking at least three length or flag words.
    let bound = s.len() / 12;
    let mut entries: Vec<NameEntry> = Vec::with_capacity(if (n as usize) < bound { n as usize } else { bound });
    let mut cur = s;
    let mut i: u32 = 0;
    while i < n
        invariant
            i <= n,
            cur@.len() <= s@.len(),
            parse_entries(s@, n as nat) == (match parse_entries(cur@, (n - i) as nat) {
                Err(e) => Err(e),
                Ok((xs, rest)) => Ok((entries_view(entries@) + xs, rest)),
            }),
        decreases n - i,
    {
        match NameEntry::from_bytes(cur) {
            Err(e) => {
                return Err(e);
            },
            Ok((entry, rest)) => {
                let ghost before = entries_view(entries@);
                entries.push(entry);
                proof {
                    assert(entries_view(entries@) =~= before.push(entry@));
                    match parse_entries(rest@, (n - i - 1) as nat) {
                        Err(_) => {},
                        Ok((xs, r)) => {
                            assert(before + (seq![entry@] + xs) =~= before.push(entry@) + xs);
                        },
                    }
                }
                cur = rest;
                i = i + 1;
            },
        }
    }
    proof {
        assert(entries_view(entries@) + Seq::<NameEntryView>::empty() =~= entries_view(entries@));
    }
    Ok((entries, cur))
}

#[derive(Debug)]
pub enum ResponseInner {
    Status {
        status_code: StatusCode,
        /// ISO-10646 UTF-8 [RFC-2279]
        err_msg: Box<str>,
        /// [RFC-1766]
        language_tag: Box<str>,
    },
    Handle(Box<[u8]>),
    /// The bytes that follow the response id are the data of the packet;
    /// the decoder hands them back undecoded.
    Data,
    Name(Box<[NameEntry]>),
    Attrs(FileAttrs),
}

pub enum ResponseInnerView {
    Status { status_code: StatusCode, err_msg: Seq<char>, language_tag: Seq<char> },
    Handle(Seq<u8>),
    Data,
    Name(Seq<NameEntryView>),
    Attrs(FileAttrsView),
}

impl View for ResponseInner {
    type V = ResponseInnerView;

    open spec fn view(&self) -> ResponseInnerView {
        match self {
            ResponseInner::Status { status_code, err_msg, language_tag } => ResponseInnerView::Status {
                status_code: *status_code,
                err_msg: err_msg@,
                language_tag: language_tag@,
            },
            ResponseInner::Handle(h) => ResponseInnerView::Handle(h@),
            ResponseInner::Data => ResponseInnerView::Data,
            ResponseInner::Name(entries) => ResponseInnerView::Name(entries_view(entries@)),
            ResponseInner::Attrs(attrs) => ResponseInnerView::Attrs(attrs@),
        }
    }
}

#[derive(Debug)]
pub struct Response {
    pub response_id: u32,
    pub response_inner: ResponseInner,
}

pub struct ResponseView {
    pub response_id: u32,
    pub response_inner: ResponseInnerView,
}

impl View for Response {
    type V = ResponseView;

    open spec fn view(&self) -> ResponseView {
        ResponseView { response_id: self.response_id, response_inner: self.response_inner@ }
    }
}

/// What follows the response id, for the response type `ty`.
pub open spec fn parse_inner(ty: u8, s: Seq<u8>) -> Result<(ResponseInnerView, Seq<u8>), Error> {
    if ty == SSH_FXP_STATUS {
        match parse_status(s) {
            Err(e) => Err(e),
            Ok((status_code, s1)) => match parse_str(s1) {
                Err(e) => Err(e),
                Ok((err_msg, s2)) => match parse_str(s2) {
                    Err(e) => Err(e),
                    Ok((language_tag, rest)) => Ok((ResponseInnerView::Status { status_code, err_msg, language_tag }, rest)),
                },
            },
        }
    } else if ty == SSH_FXP_HANDLE {
        match parse_bytes(s) {
            Err(e) => Err(e),
            Ok((h, rest)) => Ok((ResponseInnerView::Handle(h), rest)),
        }
    } else if ty == SSH_FXP_DATA {
        Ok((ResponseInnerView::Data, s))
    } else if ty == SSH_FXP_NAME {
        match parse_u32(s) {
            Err(e) => Err(e),
            Ok((n, s1)) => match parse_entries(s1, n as nat) {
                Err(e) => Err(e),
                Ok((entries, rest)) => Ok((ResponseInnerView::Name(entries), rest)),
            },
        }
    } else if ty == SSH_FXP_ATTRS {
        match parse_attrs(s) {
            Err(e) => Err(e),
            Ok((attrs, rest)) => Ok((ResponseInnerView::Attrs(attrs), rest)),
        }
    } else {
        Err(Error::InvalidPacketType(ty))
    }
}

/// A response: the type byte, the response id, then what the type selects.
pub open spec fn parse_response(s: Seq<u8>) -> Result<(ResponseView, Seq<u8>), Error> {
    match parse_u8(s) {
        Err(e) => Err(e),
        Ok((ty, s1)) => match parse_u32(s1) {
            Err(e) => Err(e),
            Ok((response_id, s2)) => match parse_inner(ty, s2) {
                Err(e) => Err(e),
                Ok((response_inner, rest)) => Ok((ResponseView { response_id, response_inner }, rest)),
            },
        },
    }
}

/// The header length of a packet of type `packet_type` whose length, the
/// type byte left out, is `packet_len`.
pub open spec fn header_len(packet_len: usize, packet_type: u8) -> Option<usize> {
    if packet_type == SSH_FXP_STATUS || packet_type == SSH_FXP_HANDLE || packet_type == SSH_FXP_NAME
        || packet_type == SSH_FXP_ATTRS {
        Some(packet_len)
    } else if packet_type == SSH_FXP_DATA {
        Some(4)
    } else {
        None
    }
}

fn read_inner(ty: u8, s: &[u8]) -> (r: Result<(ResponseInner, &[u8]), Error>)
    ensures
        decoded_as(r, parse_inner(ty, s@)),
{
    if ty == SSH_FXP_STATUS {
        let (status_code, s1) = match StatusCode::from_bytes(s) {
            Err(e) => return Err(e),
            Ok(v) => v,
        };
        let (err_msg, s2) = match read_str(s1) {
            Err(e) => return Err(e),
            Ok(v) => v,
        };
        let (language_tag, rest) = match read_str(s2) {
            Err(e) => return Err(e),
            Ok(v) => v,
        };
        Ok((ResponseInner::Status {
            status_code,
            err_msg: boxed_str(err_msg),
            language_tag: boxed_str(language_tag),
        }, rest))
    } else if ty == SSH_FXP_HANDLE {
        match read_bytes(s) {
            Err(e) => Err(e),
            Ok((h, rest)) => Ok((ResponseInner::Handle(h), rest)),
        }
    } else if ty == SSH_FXP_DATA {
        Ok((ResponseInner::Data, s))
    } else if ty == SSH_FXP_NAME {
        let (n, s1) = match read_u32(s) {
            Err(e) => return Err(e),
            Ok(v) => v,
        };
        match read_entries(s1, n) {
            Err(e) => Err(e),
            Ok((entries, rest)) => {
                let boxed = boxed_entries(entries);
                Ok((ResponseInner::Name(boxed), rest))
            },
        }
    } else if ty == SSH_FXP_ATTRS {
        match FileAttrs::from_bytes(s) {
            Err(e) => Err(e),
            Ok((attrs, rest)) => Ok((ResponseInner::Attrs(attrs), rest)),
        }
    } else {
        Err(Error::InvalidPacketType(ty))
    }
}

impl Response {
    /// * `packet_len` - total length of the packet, MUST NOT include the packet_type.
    ///
    /// Return Some(header_len) where header_len does not include
    /// the packet_type.
    /// Length of the body equals to packet_len - header_len.
    ///
    /// Return None if packet_type is invalid
    pub fn len_of_header(packet_len: usize, packet_type: u8) -> (r: Option<usize>)
        ensures
            r == header_len(packet_len, packet_type),
    {
        if packet_type == SSH_FXP_STATUS || packet_type == SSH_FXP_HANDLE
            || packet_type == SSH_FXP_NAME || packet_type == SSH_FXP_ATTRS {
            Some(packet_len)
        } else if packet_type == SSH_FXP_DATA {
            Some(4)
        } else {
            None
        }
    }

    /// Decodes a response from the start of `s` and returns the bytes after
    /// it; for a Data response those are the data.
    pub fn from_bytes(s: &[u8]) -> (r: Result<(Response, &[u8]), Error>)
        ensures
            decoded_as(r, parse_response(s@)),
    {
        let (ty, s1) = match read_u8(s) {
            Err(e) => return Err(e),
            Ok(v) => v,
        };
        let (response_id, s2) = match read_u32(s1) {
            Err(e) => return Err(e),
            Ok(v) => v,
        };
        match read_inner(ty, s2) {
            Err(e) => Err(e),
            Ok((response_inner, rest)) => Ok((Response { response_id, response_inner }, rest)),
        }
    }
}

/// The first message of a server: its protocol version, then extension
/// names and data, paired in order, up to the end of the message.  An
/// unmatched last string fails the whole message with `Eof`.
pub open spec fn parse_server_version(s: Seq<u8>) -> Result<(u32, Seq<(Seq<char>, Seq<char>)>), Error> {
    match parse_u32(s) {
        Err(e) => Err(e),
        Ok((version, rest)) => match parse_strs_to_end(rest) {
            Err(e) => Err(e),
            Ok(ss) => if ss.len() % 2 == 0 {
                Ok((version, pairs_of(ss)))
            } else {
                Err(Error::Eof)
            },
        },
    }
}

#[derive(Debug)]
pub struct ServerVersion {
    pub version: u32,
    pub extensions: Extensions,
}

impl ServerVersion {
    /// * `bytes` - should not include the initial 4-byte which server
    ///   as the length of the whole packet.
    ///
    pub fn deserialize(bytes: &[u8]) -> (r: Result<Self, Error>)
        ensures
            match r {
                Ok(v) => parse_server_version(bytes@) == Ok::<(u32, Seq<(Seq<char>, Seq<char>)>), Error>((v.version, v.extensions@)),
                Err(e) => parse_server_version(bytes@) == Err::<(u32, Seq<(Seq<char>, Seq<char>)>), Error>(e),
            },
    {
        let (version, rest) = match read_u32(bytes) {
            Err(e) => return Err(e),
            Ok(v) => v,
        };
        let strings = match read_strs_to_end(rest) {
            Err(e) => return Err(e),
            Ok(v) => v,
        };
        match Extensions::new(strings) {
            Some(extensions) => Ok(Self { version, extensions }),
            None => Err(Error::Eof),
        }
    }
}

/// A Status response whose status integer is one of the two pseudo-errors
/// is rejected with `InvalidStatusCode`, whatever follows it.
pub proof fn lemma_pseudo_error_status_rejected(s: Seq<u8>)
    requires
        s.len() >= 9,
        s[0] == SSH_FXP_STATUS,
        be_u32(s.subrange(5, s.len() as int)) == SSH_FX_NO_CONNECTION
            || be_u32(s.subrange(5, s.len() as int)) == SSH_FX_CONNECTION_LOST,
    ensures
        parse_response(s) == Err::<(ResponseView, Seq<u8>), Error>(
            Error::InvalidStatusCode(be_u32(s.subrange(5, s.len() as int)) as u32),
        ),
        parse_response(s)->Err_0.is_pseudo_error(),
{
    let s1 = s.subrange(1, s.len() as int);
    let s2 = s1.subrange(4, s1.len() as int);
    assert(s2 =~= s.subrange(5, s.len() as int));
}

/// A status integer that is one of the two pseudo-errors is rejected with
/// `InvalidStatusCode`, whose message states the rule, whatever follows it.
pub proof fn lemma_pseudo_error_status_code_rejected(s: &[u8], r: Result<(StatusCode, &[u8]), Error>)
    requires
        s@.len() >= 4,
        be_u32(s@) == SSH_FX_NO_CONNECTION || be_u32(s@) == SSH_FX_CONNECTION_LOST,
        decoded_as(r, parse_status(s@)),
    ensures
        r == Err::<(StatusCode, &[u8]), Error>(Error::InvalidStatusCode(be_u32(s@) as u32)),
        r->Err_0.is_pseudo_error(),
{
}

/// `Response::from_bytes` on a Status response whose status integer is one
/// of the two pseudo-errors fails with `InvalidStatusCode`, whatever follows.
pub proof fn lemma_pseudo_error_response_rejected(s: &[u8], r: Result<(Response, &[u8]), Error>)
    requires
        s@.len() >= 9,
        s@[0] == SSH_FXP_STATUS,
        be_u32(s@.subrange(5, s@.len() as int)) == SSH_FX_NO_CONNECTION
            || be_u32(s@.subrange(5, s@.len() as int)) == SSH_FX_CONNECTION_LOST,
        decoded_as(r, parse_response(s@)),
    ensures
        r == Err::<(Response, &[u8]), Error>(
            Error::InvalidStatusCode(be_u32(s@.subrange(5, s@.len() as int)) as u32),
        ),
        r->Err_0.is_pseudo_error(),
{
    lemma_pseudo_error_status_rejected(s@);
}

/// `Response::from_bytes` on an Attrs response whose flags word names no
/// extension list, followed by the bytes of the fields it names, succeeds:
/// the response id and the flags word are the ones sent, each field is
/// present exactly when its bit is set, and exactly those bytes are taken.
pub proof fn lemma_attrs_response_decodes(s: &[u8], r: Result<(Response, &[u8]), Error>)
    requires
        s@.len() >= 9,
        s@[0] == SSH_FXP_ATTRS,
        (be_u32(s@.subrange(5, s@.len() as int)) as u32) & SSH_FILEXFER_ATTR_EXTENDED == 0,
        s@.len() >= 9 + fixed_fields_len(be_u32(s@.subrange(5, s@.len() as int)) as u32),
        decoded_as(r, parse_response(s@)),
    ensures
        r is Ok,
        r->Ok_0.0.response_id == be_u32(s@.subrange(1, s@.len() as int)) as u32,
        match r->Ok_0.0@.response_inner {
            ResponseInnerView::Attrs(a) => a.flags == be_u32(s@.subrange(5, s@.len() as int)) as u32
                && a.consistent() && a.extensions is None,
            _ => false,
        },
        r->Ok_0.1@.len() == s@.len() - 9 - fixed_fields_len(be_u32(s@.subrange(5, s@.len() as int)) as u32),
{
    let s1 = s@.subrange(1, s@.len() as int);
    let s2 = s1.subrange(4, s1.len() as int);
    assert(s2 =~= s@.subrange(5, s@.len() as int));
    lemma_attrs_decode_when_fields_present(s2);
}

/// Decoding the same bytes twice gives equal responses followed by the
/// same bytes, or the same error.
pub proof fn lemma_response_decode_deterministic(
    s: &[u8],
    r1: Result<(Response, &[u8]), Error>,
    r2: Result<(Response, &[u8]), Error>,
)
    requires
        decoded_as(r1, parse_response(s@)),
        decoded_as(r2, parse_response(s@)),
    ensures
        match (r1, r2) {
            (Ok((a1, t1)), Ok((a2, t2))) => a1@ == a2@ && t1@ == t2@,
            (Err(e1), Err(e2)) => e1 == e2,
            _ => false,
        },
{
}

} // verus!
