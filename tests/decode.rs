use sftp_protocol::constants::{
    SSH_FILEXFER_ATTR_ACMODTIME, SSH_FILEXFER_ATTR_EXTENDED, SSH_FILEXFER_ATTR_PERMISSIONS,
    SSH_FILEXFER_ATTR_SIZE, SSH_FILEXFER_ATTR_UIDGID, SSH_FXP_ATTRS, SSH_FXP_DATA, SSH_FXP_HANDLE,
    SSH_FXP_NAME, SSH_FXP_STATUS,
};
use sftp_protocol::error::Error;
use sftp_protocol::extensions::Extensions;
use sftp_protocol::file_attrs::FileAttrs;
use sftp_protocol::response::{
    Response, ResponseInner, ServerVersion, StatusCode, PSEUDO_ERROR_MESSAGE,
};
use vec_strings::Strings;

fn u32_be(out: &mut Vec<u8>, v: u32) {
    out.extend_from_slice(&v.to_be_bytes());
}

fn string(out: &mut Vec<u8>, s: &str) {
    u32_be(out, s.len() as u32);
    out.extend_from_slice(s.as_bytes());
}

fn header(ty: u8, id: u32) -> Vec<u8> {
    let mut out = vec![ty];
    u32_be(&mut out, id);
    out
}

#[test]
fn attrs_all_sixteen_flag_combinations() {
    for bits in 0u32..16 {
        let mut bytes = Vec::new();
        u32_be(&mut bytes, bits);
        if bits & SSH_FILEXFER_ATTR_SIZE != 0 {
            bytes.extend_from_slice(&0x0102_0304_0506_0708u64.to_be_bytes());
        }
        if bits & SSH_FILEXFER_ATTR_UIDGID != 0 {
            u32_be(&mut bytes, 1000);
            u32_be(&mut bytes, 100);
        }
        if bits & SSH_FILEXFER_ATTR_PERMISSIONS != 0 {
            u32_be(&mut bytes, 0o755);
        }
        if bits & SSH_FILEXFER_ATTR_ACMODTIME != 0 {
            u32_be(&mut bytes, 1_600_000_000);
            u32_be(&mut bytes, 1_700_000_000);
        }
        bytes.push(0xAA);
        let (attrs, rest) = FileAttrs::from_bytes(&bytes).unwrap();
        assert_eq!(rest, &[0xAA]);
        assert_eq!(attrs.get_flags(), bits);
        assert_eq!(
            attrs.get_size(),
            if bits & 1 != 0 { Some(0x0102_0304_0506_0708) } else { None }
        );
        assert_eq!(attrs.get_id(), if bits & 2 != 0 { Some((1000, 100)) } else { None });
        assert_eq!(attrs.get_permissions(), if bits & 4 != 0 { Some(0o755) } else { None });
        assert_eq!(
            attrs.get_time(),
            if bits & 8 != 0 { Some((1_600_000_000, 1_700_000_000)) } else { None }
        );
        assert!(attrs.get_extensions().is_none());
    }
}

#[test]
fn attrs_missing_field_is_eof() {
    let mut bytes = Vec::new();
    u32_be(&mut bytes, SSH_FILEXFER_ATTR_SIZE | SSH_FILEXFER_ATTR_UIDGID);
    bytes.extend_from_slice(&7u64.to_be_bytes());
    u32_be(&mut bytes, 1);
    assert!(matches!(FileAttrs::from_bytes(&bytes), Err(Error::Eof)));
    assert!(matches!(FileAttrs::from_bytes(&[0, 0]), Err(Error::Eof)));
}

#[test]
fn attrs_with_extensions() {
    let mut bytes = Vec::new();
    u32_be(&mut bytes, SSH_FILEXFER_ATTR_EXTENDED | SSH_FILEXFER_ATTR_PERMISSIONS);
    u32_be(&mut bytes, 0o644);
    u32_be(&mut bytes, 2);
    string(&mut bytes, "a@x");
    string(&mut bytes, "1");
    string(&mut bytes, "b@x");
    string(&mut bytes, "");
    let (attrs, rest) = FileAttrs::from_bytes(&bytes).unwrap();
    assert!(rest.is_empty());
    assert_eq!(attrs.get_permissions(), Some(0o644));
    let ext = attrs.get_extensions().as_ref().unwrap();
    assert_eq!(ext.len(), 2);
    assert!(!ext.is_empty());
    assert_eq!(ext.get(0), Some(("a@x", "1")));
    assert_eq!(ext.get(1), Some(("b@x", "")));
    assert_eq!(ext.get(2), None);
}

#[test]
fn attrs_extension_count_beyond_data_is_eof() {
    let mut bytes = Vec::new();
    u32_be(&mut bytes, SSH_FILEXFER_ATTR_EXTENDED);
    u32_be(&mut bytes, 2);
    string(&mut bytes, "a");
    string(&mut bytes, "b");
    string(&mut bytes, "c");
    assert!(matches!(FileAttrs::from_bytes(&bytes), Err(Error::Eof)));
}

#[test]
fn attrs_decode_twice_gives_equal_values() {
    let mut bytes = Vec::new();
    u32_be(&mut bytes, 0xF);
    bytes.extend_from_slice(&42u64.to_be_bytes());
    for v in [1u32, 2, 3, 4, 5] {
        u32_be(&mut bytes, v);
    }
    let (a, ra) = FileAttrs::from_bytes(&bytes).unwrap();
    let (b, rb) = FileAttrs::from_bytes(&bytes).unwrap();
    assert_eq!(ra, rb);
    assert_eq!(a.get_flags(), b.get_flags());
    assert_eq!(a.get_size(), b.get_size());
    assert_eq!(a.get_id(), b.get_id());
    assert_eq!(a.get_permissions(), b.get_permissions());
    assert_eq!(a.get_time(), b.get_time());
    assert_eq!(a.get_size(), Some(42));
    assert_eq!(a.get_id(), Some((1, 2)));
    assert_eq!(a.get_permissions(), Some(3));
    assert_eq!(a.get_time(), Some((4, 5)));
}

#[test]
fn setters_keep_flags_in_step() {
    let mut attrs = FileAttrs::new();
    assert_eq!(attrs.get_flags(), 0);
    assert_eq!(attrs.get_size(), None);
    attrs.set_size(10);
    assert_eq!(attrs.get_flags(), SSH_FILEXFER_ATTR_SIZE);
    attrs.set_uid(1, 2);
    attrs.set_permissions(0o600);
    attrs.set_time(3, 4);
    let mut strings = Strings::new();
    strings.push("name");
    strings.push("data");
    attrs.set_extensions(Extensions::new(strings).unwrap());
    assert_eq!(
        attrs.get_flags(),
        SSH_FILEXFER_ATTR_SIZE
            | SSH_FILEXFER_ATTR_UIDGID
            | SSH_FILEXFER_ATTR_PERMISSIONS
            | SSH_FILEXFER_ATTR_ACMODTIME
            | SSH_FILEXFER_ATTR_EXTENDED
    );
    assert_eq!(attrs.get_size(), Some(10));
    assert_eq!(attrs.get_id(), Some((1, 2)));
    assert_eq!(attrs.get_permissions(), Some(0o600));
    assert_eq!(attrs.get_time(), Some((3, 4)));
    assert_eq!(
        attrs.get_extensions().as_ref().unwrap().get(0),
        Some(("name", "data"))
    );
    *attrs.get_extensions_mut() = None;
    assert!(attrs.get_extensions().is_none());
}

#[test]
fn extensions_new_rejects_odd_count() {
    let mut strings = Strings::new();
    strings.push("only");
    assert!(Extensions::new(strings).is_none());
    let empty = Extensions::new(Strings::new()).unwrap();
    assert!(empty.is_empty());
    assert_eq!(empty.len(), 0);
}

#[test]
fn status_codes_map() {
    let expected = [
        (0, StatusCode::Success),
        (1, StatusCode::Eof),
        (2, StatusCode::NoSuchFile),
        (3, StatusCode::PermDenied),
        (4, StatusCode::Failure),
        (5, StatusCode::BadMessage),
        (8, StatusCode::OpUnsupported),
    ];
    for (code, status) in expected {
        assert_eq!(StatusCode::from_u32(code), Ok(status));
    }
    assert_eq!(StatusCode::from_u32(9), Err(Error::InvalidStatusCode(9)));
    assert_eq!(
        Error::InvalidStatusCode(9).message(),
        "Invalid status code"
    );
}

#[test]
fn status_response_decodes() {
    let mut bytes = header(SSH_FXP_STATUS, 17);
    u32_be(&mut bytes, 2);
    string(&mut bytes, "no such file");
    string(&mut bytes, "en");
    let (response, rest) = Response::from_bytes(&bytes).unwrap();
    assert!(rest.is_empty());
    assert_eq!(response.response_id, 17);
    match response.response_inner {
        ResponseInner::Status { status_code, err_msg, language_tag } => {
            assert_eq!(status_code, StatusCode::NoSuchFile);
            assert_eq!(&*err_msg, "no such file");
            assert_eq!(&*language_tag, "en");
        }
        _ => panic!("not a status response"),
    }
}

#[test]
fn status_response_with_pseudo_error_is_rejected() {
    for code in [6u32, 7] {
        let mut bytes = header(SSH_FXP_STATUS, 1);
        u32_be(&mut bytes, code);
        string(&mut bytes, "msg");
        string(&mut bytes, "");
        match Response::from_bytes(&bytes) {
            Err(e) => {
                assert_eq!(e, Error::InvalidStatusCode(code));
                assert_eq!(e.message(), PSEUDO_ERROR_MESSAGE);
            }
            Ok(_) => panic!("pseudo-error accepted"),
        }
    }
}

#[test]
fn handle_response_decodes() {
    let mut bytes = header(SSH_FXP_HANDLE, 3);
    u32_be(&mut bytes, 3);
    bytes.extend_from_slice(&[9, 8, 7]);
    let (response, rest) = Response::from_bytes(&bytes).unwrap();
    assert!(rest.is_empty());
    match response.response_inner {
        ResponseInner::Handle(h) => assert_eq!(&*h, &[9, 8, 7]),
        _ => panic!("not a handle response"),
    }
    let mut short = header(SSH_FXP_HANDLE, 3);
    u32_be(&mut short, 4);
    short.extend_from_slice(&[1, 2]);
    assert!(matches!(Response::from_bytes(&short), Err(Error::Eof)));
}

#[test]
fn data_response_leaves_payload() {
    let mut bytes = header(SSH_FXP_DATA, 5);
    bytes.extend_from_slice(&[0, 0, 0, 2, b'h', b'i']);
    let (response, rest) = Response::from_bytes(&bytes).unwrap();
    assert_eq!(response.response_id, 5);
    assert!(matches!(response.response_inner, ResponseInner::Data));
    assert_eq!(rest, &[0, 0, 0, 2, b'h', b'i']);
}

#[test]
fn name_response_decodes_entries() {
    let mut bytes = header(SSH_FXP_NAME, 8);
    u32_be(&mut bytes, 2);
    string(&mut bytes, "a.txt");
    string(&mut bytes, "-rw-r--r-- a.txt");
    u32_be(&mut bytes, SSH_FILEXFER_ATTR_SIZE);
    bytes.extend_from_slice(&12u64.to_be_bytes());
    string(&mut bytes, "b");
    string(&mut bytes, "b");
    u32_be(&mut bytes, 0);
    let (response, rest) = Response::from_bytes(&bytes).unwrap();
    assert!(rest.is_empty());
    match response.response_inner {
        ResponseInner::Name(entries) => {
            assert_eq!(entries.len(), 2);
            assert_eq!(entries[0].filename(), "a.txt");
            assert_eq!(entries[0].longname(), "-rw-r--r-- a.txt");
            assert_eq!(entries[0].attrs().get_size(), Some(12));
            assert_eq!(entries[1].filename(), "b");
            assert_eq!(entries[1].attrs().get_flags(), 0);
        }
        _ => panic!("not a name response"),
    }
}

#[test]
fn name_response_count_beyond_entries_is_eof() {
    let mut bytes = header(SSH_FXP_NAME, 8);
    u32_be(&mut bytes, 2);
    string(&mut bytes, "a.txt");
    string(&mut bytes, "a.txt");
    u32_be(&mut bytes, 0);
    assert!(matches!(Response::from_bytes(&bytes), Err(Error::Eof)));
}

#[test]
fn name_response_with_huge_count_fails_cleanly() {
    let mut bytes = header(SSH_FXP_NAME, 8);
    u32_be(&mut bytes, u32::MAX);
    assert!(matches!(Response::from_bytes(&bytes), Err(Error::Eof)));
}

#[test]
fn name_entry_with_invalid_utf8_is_rejected() {
    let mut bytes = header(SSH_FXP_NAME, 8);
    u32_be(&mut bytes, 1);
    u32_be(&mut bytes, 2);
    bytes.extend_from_slice(&[0xFF, 0xFE]);
    assert!(matches!(Response::from_bytes(&bytes), Err(Error::InvalidStr)));
}

#[test]
fn attrs_response_decodes() {
    let mut bytes = header(SSH_FXP_ATTRS, 4);
    u32_be(&mut bytes, SSH_FILEXFER_ATTR_PERMISSIONS);
    u32_be(&mut bytes, 0o700);
    let (response, _) = Response::from_bytes(&bytes).unwrap();
    assert_eq!(response.response_id, 4);
    match response.response_inner {
        ResponseInner::Attrs(attrs) => assert_eq!(attrs.get_permissions(), Some(0o700)),
        _ => panic!("not an attrs response"),
    }
}

#[test]
fn unknown_packet_type_is_rejected() {
    let bytes = header(0xFF, 1);
    assert_eq!(
        Response::from_bytes(&bytes).err(),
        Some(Error::InvalidPacketType(0xFF))
    );
    assert_eq!(Response::from_bytes(&[]).err(), Some(Error::Eof));
    assert_eq!(Response::from_bytes(&[SSH_FXP_DATA, 0, 0]).err(), Some(Error::Eof));
}

#[test]
fn len_of_header_values() {
    assert_eq!(Response::len_of_header(9, SSH_FXP_DATA), Some(4));
    assert_eq!(Response::len_of_header(9, SSH_FXP_ATTRS), Some(9));
    assert_eq!(Response::len_of_header(9, 0xFF), None);
    assert_eq!(Response::len_of_header(20, SSH_FXP_STATUS), Some(20));
    assert_eq!(Response::len_of_header(20, SSH_FXP_HANDLE), Some(20));
    assert_eq!(Response::len_of_header(20, SSH_FXP_NAME), Some(20));
}

#[test]
fn server_version_with_one_extension() {
    let mut bytes = Vec::new();
    u32_be(&mut bytes, 3);
    string(&mut bytes, "ext1");
    string(&mut bytes, "data1");
    let version = ServerVersion::deserialize(&bytes).unwrap();
    assert_eq!(version.version, 3);
    assert_eq!(version.extensions.len(), 1);
    assert_eq!(version.extensions.get(0), Some(("ext1", "data1")));

    string(&mut bytes, "ext2");
    assert!(matches!(ServerVersion::deserialize(&bytes), Err(Error::Eof)));
}

#[test]
fn server_version_edge_cases() {
    let version = ServerVersion::deserialize(&[0, 0, 0, 3]).unwrap();
    assert_eq!(version.version, 3);
    assert!(version.extensions.is_empty());
    assert!(matches!(ServerVersion::deserialize(&[0, 0, 3]), Err(Error::Eof)));
    let mut bad = Vec::new();
    u32_be(&mut bad, 3);
    u32_be(&mut bad, 1);
    bad.push(0x80);
    u32_be(&mut bad, 0);
    assert!(matches!(ServerVersion::deserialize(&bad), Err(Error::InvalidStr)));
}

#[test]
fn cloned_attrs_keep_every_field() {
    let mut attrs = FileAttrs::new();
    attrs.set_size(1);
    attrs.set_time(2, 3);
    let mut strings = Strings::new();
    strings.push("k");
    strings.push("v");
    attrs.set_extensions(Extensions::new(strings).unwrap());
    let copy = attrs.clone();
    assert_eq!(copy.get_flags(), attrs.get_flags());
    assert_eq!(copy.get_size(), Some(1));
    assert_eq!(copy.get_time(), Some((2, 3)));
    assert_eq!(copy.get_extensions().as_ref().unwrap().get(0), Some(("k", "v")));
}
