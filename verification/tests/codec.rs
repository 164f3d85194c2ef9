use genl_codec::codes::{GenlCmds, NlaType};
use genl_codec::error::DeError;
use genl_codec::genlhdr::{GenlHdr, NlAttrHdr, NlAttrPayload};
use genl_codec::state::{NlDeState, NlSerState};

#[test]
pub fn test_serialize() {
    let genl = GenlHdr::new(
        GenlCmds::CmdGetops,
        2,
        vec![NlAttrHdr::new(
            None,
            NlaType::AttrFamilyId,
            NlAttrPayload::Bin(vec![0, 1, 2, 3, 4, 5]),
        )],
    );
    let mut state = NlSerState::new();
    genl.serialize(&mut state).unwrap();
    let mut v_final: Vec<u8> = Vec::with_capacity(genl.asize());
    v_final.push(GenlCmds::CmdGetops.code());
    v_final.push(2);
    v_final.extend_from_slice(&0u16.to_le_bytes());
    v_final.extend_from_slice(&12u16.to_le_bytes());
    v_final.extend_from_slice(&NlaType::AttrFamilyId.code().to_le_bytes());
    v_final.extend_from_slice(&[0, 1, 2, 3, 4, 5, 0, 0]);
    assert_eq!(&state.into_inner(), &v_final)
}

#[test]
pub fn test_deserialize() {
    let genl_mock = GenlHdr::new(
        GenlCmds::CmdGetops,
        2,
        vec![NlAttrHdr::new(
            None,
            NlaType::AttrFamilyId,
            NlAttrPayload::Bin(vec![0, 1, 2, 3, 4, 5, 0, 0]),
        )],
    );
    let mut v_final: Vec<u8> = Vec::with_capacity(genl_mock.asize());
    v_final.push(GenlCmds::CmdGetops.code());
    v_final.push(2);
    v_final.extend_from_slice(&0u16.to_le_bytes());
    v_final.extend_from_slice(&12u16.to_le_bytes());
    v_final.extend_from_slice(&NlaType::AttrFamilyId.code().to_le_bytes());
    v_final.extend_from_slice(&[0, 1, 2, 3, 4, 5, 0, 0]);
    let mut state = NlDeState::new(&v_final);
    let genl = GenlHdr::deserialize(&mut state).unwrap();
    assert_eq!(genl, genl_mock)
}

#[test]
fn aligned_size_samples() {
    assert_eq!(genl_codec::align::aligned_size(0), 0);
    assert_eq!(genl_codec::align::aligned_size(1), 4);
    assert_eq!(genl_codec::align::aligned_size(2), 4);
    assert_eq!(genl_codec::align::aligned_size(3), 4);
    assert_eq!(genl_codec::align::aligned_size(4), 4);
    assert_eq!(genl_codec::align::aligned_size(5), 8);
    assert_eq!(genl_codec::align::aligned_size(6), 8);
    assert_eq!(genl_codec::align::aligned_size(8), 8);
    for n in 0..64usize {
        let a = genl_codec::align::aligned_size(n);
        assert!(a >= n);
        assert_eq!(a % 4, 0);
        assert_eq!(a == n, n % 4 == 0);
    }
}

#[test]
fn bin_payload_writes_aligned_size_with_zero_tail() {
    // A blob of length 6 writes exactly alignedSize(6) = 8 bytes, the last
    // two of them zero.
    let payload = NlAttrPayload::Bin(vec![9, 8, 7, 6, 5, 4]);
    let mut state = NlSerState::new();
    payload.serialize(&mut state).unwrap();
    let bytes = state.into_inner();
    assert_eq!(bytes.len(), 8);
    assert_eq!(&bytes, &vec![9, 8, 7, 6, 5, 4, 0, 0]);

    // An already-aligned blob gains no padding.
    let payload = NlAttrPayload::Bin(vec![1, 2, 3, 4]);
    let mut state = NlSerState::new();
    payload.serialize(&mut state).unwrap();
    assert_eq!(&state.into_inner(), &vec![1, 2, 3, 4]);

    // The empty blob writes nothing.
    let payload = NlAttrPayload::Bin(Vec::new());
    let mut state = NlSerState::new();
    payload.serialize(&mut state).unwrap();
    assert_eq!(state.into_inner().len(), 0);
}

#[test]
fn decode_keeps_padding_in_payload() {
    // declaredLength = 12 over a payload written from 6 raw bytes: decoding
    // yields the padded 8-byte payload, not the original 6 bytes.
    let attr = NlAttrHdr::new(
        None,
        NlaType::AttrFamilyId,
        NlAttrPayload::Bin(vec![0, 1, 2, 3, 4, 5]),
    );
    let mut state = NlSerState::new();
    attr.serialize(&mut state).unwrap();
    let wire = state.into_inner();
    assert_eq!(wire.len(), 12);

    let mut de = NlDeState::new(&wire);
    let decoded = NlAttrHdr::deserialize(&mut de).unwrap();
    assert_eq!(decoded.nla_len, 12);
    assert_eq!(decoded.nla_type, NlaType::AttrFamilyId);
    match &decoded.payload {
        NlAttrPayload::Bin(v) => assert_eq!(v, &vec![0, 1, 2, 3, 4, 5, 0, 0]),
        NlAttrPayload::Parsed(_) => panic!("decode must produce a binary payload"),
    }

    // Re-encoding the decoded attribute reproduces the wire bytes exactly.
    let mut state = NlSerState::new();
    decoded.serialize(&mut state).unwrap();
    assert_eq!(&state.into_inner(), &wire);
}

fn two_attr_message_bytes() -> Vec<u8> {
    let genl = GenlHdr::new(
        GenlCmds::CmdGetops,
        1,
        vec![
            NlAttrHdr::new(None, NlaType::AttrFamilyId, NlAttrPayload::Bin(vec![7])),
            NlAttrHdr::new(
                None,
                NlaType::AttrUnrecognized(9),
                NlAttrPayload::Bin(vec![1, 2, 3, 4, 5]),
            ),
        ],
    );
    let mut state = NlSerState::new();
    genl.serialize(&mut state).unwrap();
    state.into_inner()
}

#[test]
fn decode_two_consecutive_attributes() {
    let wire = two_attr_message_bytes();
    // 4 fixed bytes, then 4 + 4 and 4 + 8 for the two attributes.
    assert_eq!(wire.len(), 4 + 8 + 12);
    let mut de = NlDeState::new(&wire);
    let genl = GenlHdr::deserialize(&mut de).unwrap();
    assert_eq!(genl.cmd, GenlCmds::CmdGetops);
    assert_eq!(genl.version, 1);
    assert_eq!(genl.reserved, 0);
    assert_eq!(genl.attrs.len(), 2);
    assert_eq!(genl.attrs[0].nla_len, 8);
    assert_eq!(genl.attrs[0].nla_type, NlaType::AttrFamilyId);
    match &genl.attrs[0].payload {
        NlAttrPayload::Bin(v) => assert_eq!(v, &vec![7, 0, 0, 0]),
        NlAttrPayload::Parsed(_) => panic!("decode must produce a binary payload"),
    }
    assert_eq!(genl.attrs[1].nla_len, 12);
    assert_eq!(genl.attrs[1].nla_type, NlaType::AttrUnrecognized(9));
    match &genl.attrs[1].payload {
        NlAttrPayload::Bin(v) => assert_eq!(v, &vec![1, 2, 3, 4, 5, 0, 0, 0]),
        NlAttrPayload::Parsed(_) => panic!("decode must produce a binary payload"),
    }
}

#[test]
fn trailing_partial_attribute_is_truncated() {
    let wire = two_attr_message_bytes();
    for extra in 1..4usize {
        let mut bytes = wire.clone();
        for k in 0..extra {
            bytes.push(k as u8 + 1);
        }
        let mut de = NlDeState::new(&bytes);
        assert_eq!(GenlHdr::deserialize(&mut de), Err(DeError::Truncated));
    }
}

#[test]
fn truncated_fixed_header() {
    for len in 0..4usize {
        let bytes = vec![0u8; len];
        let mut de = NlDeState::new(&bytes);
        assert_eq!(GenlHdr::deserialize(&mut de), Err(DeError::Truncated));
    }
}

#[test]
fn declared_length_past_end_is_underrun() {
    // Fixed header, then an attribute declaring 12 bytes with only 4 present.
    let bytes = vec![3, 2, 0, 0, 12, 0, 1, 0, 0xaa, 0xbb, 0xcc, 0xdd];
    let mut de = NlDeState::new(&bytes);
    assert_eq!(GenlHdr::deserialize(&mut de), Err(DeError::Underrun));
}

#[test]
fn declared_length_under_header_is_length_mismatch() {
    for bad in 0..4u16 {
        let mut bytes = vec![3, 2, 0, 0];
        bytes.extend_from_slice(&bad.to_le_bytes());
        bytes.extend_from_slice(&1u16.to_le_bytes());
        let mut de = NlDeState::new(&bytes);
        assert_eq!(GenlHdr::deserialize(&mut de), Err(DeError::LengthMismatch));
    }
}

#[test]
fn nested_payload_encodes_each_child_padded() {
    let nested = NlAttrPayload::Parsed(vec![
        NlAttrHdr::new(None, NlaType::AttrFamilyId, NlAttrPayload::Bin(vec![7])),
        NlAttrHdr::new(None, NlaType::AttrUnspec, NlAttrPayload::Bin(vec![1, 2, 3, 4])),
    ]);
    let mut state = NlSerState::new();
    nested.serialize(&mut state).unwrap();
    let bytes = state.into_inner();
    let mut expected: Vec<u8> = Vec::new();
    expected.extend_from_slice(&8u16.to_le_bytes());
    expected.extend_from_slice(&1u16.to_le_bytes());
    expected.extend_from_slice(&[7, 0, 0, 0]);
    expected.extend_from_slice(&8u16.to_le_bytes());
    expected.extend_from_slice(&0u16.to_le_bytes());
    expected.extend_from_slice(&[1, 2, 3, 4]);
    assert_eq!(&bytes, &expected);
}

#[test]
fn parse_nested_reinterprets_blob() {
    // Encode two attributes, wrap the bytes as a blob, and reinterpret.
    let attrs = vec![
        NlAttrHdr::new(None, NlaType::AttrFamilyId, NlAttrPayload::Bin(vec![7])),
        NlAttrHdr::new(None, NlaType::AttrUnspec, NlAttrPayload::Bin(vec![1, 2, 3, 4])),
    ];
    let nested = NlAttrPayload::Parsed(attrs);
    let mut state = NlSerState::new();
    nested.serialize(&mut state).unwrap();
    let blob = NlAttrPayload::Bin(state.into_inner());
    let parsed = blob.parse_nested().unwrap();
    assert_eq!(parsed.len(), 2);
    assert_eq!(parsed[0].nla_len, 8);
    assert_eq!(parsed[0].nla_type, NlaType::AttrFamilyId);
    assert_eq!(parsed[1].nla_len, 8);
    assert_eq!(parsed[1].nla_type, NlaType::AttrUnspec);

    // A Parsed payload is handed back as it stands; decoding above returned
    // each payload padded, so the same padded values compare equal.
    let again = NlAttrPayload::Parsed(vec![
        NlAttrHdr::new(None, NlaType::AttrFamilyId, NlAttrPayload::Bin(vec![7, 0, 0, 0])),
        NlAttrHdr::new(None, NlaType::AttrUnspec, NlAttrPayload::Bin(vec![1, 2, 3, 4])),
    ]);
    assert_eq!(again.parse_nested().unwrap(), parsed);

    // A blob that ends mid-attribute fails.
    let bad = NlAttrPayload::Bin(vec![8, 0, 1]);
    assert_eq!(bad.parse_nested(), Err(DeError::Truncated));
}

#[test]
fn constructor_defaults() {
    // The default declared length is the attribute's aligned size.
    let attr = NlAttrHdr::new(None, NlaType::AttrFamilyId, NlAttrPayload::Bin(vec![0; 6]));
    assert_eq!(attr.nla_len, 12);
    let attr = NlAttrHdr::new(None, NlaType::AttrFamilyId, NlAttrPayload::Bin(Vec::new()));
    assert_eq!(attr.nla_len, 4);
    // A caller may override it, deliberately wrong values included.
    let attr = NlAttrHdr::new(Some(3), NlaType::AttrFamilyId, NlAttrPayload::Bin(vec![0; 6]));
    assert_eq!(attr.nla_len, 3);

    let genl = GenlHdr::default();
    assert_eq!(genl.cmd, GenlCmds::CmdUnspec);
    assert_eq!(genl.version, 0);
    assert_eq!(genl.reserved, 0);
    assert_eq!(genl.attrs.len(), 0);

    match NlAttrPayload::default() {
        NlAttrPayload::Bin(v) => assert_eq!(v.len(), 0),
        NlAttrPayload::Parsed(_) => panic!("default payload must be an empty blob"),
    }
    let attr = NlAttrHdr::default();
    assert_eq!(attr.nla_len, 0);
    assert_eq!(attr.nla_type, NlaType::AttrUnspec);
}

#[test]
fn sizes() {
    let attr = NlAttrHdr::new(None, NlaType::AttrFamilyId, NlAttrPayload::Bin(vec![0; 6]));
    assert_eq!(attr.size(), 10);
    assert_eq!(attr.asize(), 12);
    let genl = GenlHdr::new(GenlCmds::CmdGetops, 2, vec![attr]);
    assert_eq!(genl.size(), 14);
    assert_eq!(genl.asize(), 16);
    // Raw size counts the blob's logical length, not what the wire holds.
    let payload = NlAttrPayload::Bin(vec![0; 6]);
    assert_eq!(payload.size(), 6);
    let nested = NlAttrPayload::Parsed(vec![
        NlAttrHdr::new(None, NlaType::AttrFamilyId, NlAttrPayload::Bin(vec![7])),
        NlAttrHdr::new(None, NlaType::AttrUnspec, NlAttrPayload::Bin(vec![1, 2, 3, 4])),
    ]);
    assert_eq!(nested.size(), 5 + 8);
}

#[test]
fn code_round_trips() {
    assert_eq!(GenlCmds::CmdUnspec.code(), 0);
    assert_eq!(GenlCmds::CmdGetops.code(), 3);
    assert_eq!(GenlCmds::from_code(0), GenlCmds::CmdUnspec);
    assert_eq!(GenlCmds::from_code(3), GenlCmds::CmdGetops);
    assert_eq!(GenlCmds::from_code(7), GenlCmds::CmdUnrecognized(7));
    assert_eq!(GenlCmds::CmdUnrecognized(7).code(), 7);

    assert_eq!(NlaType::AttrUnspec.code(), 0);
    assert_eq!(NlaType::AttrFamilyId.code(), 1);
    assert_eq!(NlaType::from_code(0), NlaType::AttrUnspec);
    assert_eq!(NlaType::from_code(1), NlaType::AttrFamilyId);
    assert_eq!(NlaType::from_code(900), NlaType::AttrUnrecognized(900));
    assert_eq!(NlaType::AttrUnrecognized(900).code(), 900);
}

#[test]
fn unknown_codes_survive_decode() {
    // A message with an unrecognized command and attribute type decodes to
    // the verbatim-value variants and re-encodes to the same bytes.
    let genl = GenlHdr::new(
        GenlCmds::CmdUnrecognized(200),
        9,
        vec![NlAttrHdr::new(
            None,
            NlaType::AttrUnrecognized(4000),
            NlAttrPayload::Bin(vec![1, 2, 3, 4]),
        )],
    );
    let mut state = NlSerState::new();
    genl.serialize(&mut state).unwrap();
    let wire = state.into_inner();
    let mut de = NlDeState::new(&wire);
    let back = GenlHdr::deserialize(&mut de).unwrap();
    assert_eq!(back, genl);
    let mut state = NlSerState::new();
    back.serialize(&mut state).unwrap();
    assert_eq!(state.into_inner(), wire);
}

#[test]
fn empty_message_round_trip() {
    let genl = GenlHdr::new(GenlCmds::CmdGetops, 2, Vec::new());
    let mut state = NlSerState::new();
    genl.serialize(&mut state).unwrap();
    let wire = state.into_inner();
    assert_eq!(wire, vec![3, 2, 0, 0]);
    let mut de = NlDeState::new(&wire);
    assert_eq!(GenlHdr::deserialize(&mut de).unwrap(), genl);
}
