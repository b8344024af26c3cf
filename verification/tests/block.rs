use fipa_wasm_agents::block::{BlockError, BlockFile, TAG_DATA, TAG_HEADER, TAG_LLM, TAG_STRING, TAG_UNL, TAG_WASM};

#[test]
fn agent_bundle_many_blocks() {
    let agent = BlockFile::new()
        .with(TAG_WASM, vec![0, 1, 2, 3])
        .with(TAG_HEADER, b"name=gate-sensor".to_vec())
        .with(TAG_LLM, b"ollama:llama3.1".to_vec())
        .with(TAG_UNL, b"vocab-bytes".to_vec())
        .with(TAG_DATA, vec![0xAA]);
    let back = BlockFile::decode(&agent.encode()).unwrap();
    assert_eq!(back, agent);
    assert_eq!(back.get(TAG_UNL), Some(b"vocab-bytes".as_slice()));
    assert_eq!(back.get(TAG_LLM), Some(b"ollama:llama3.1".as_slice()));
    assert!(back.has(TAG_WASM) && back.has(TAG_HEADER) && back.has(TAG_DATA));
    assert_eq!(back.get(*b"NONE"), None);
}

#[test]
fn message_shape_unl_plus_data() {
    let msg = BlockFile::new()
        .with(TAG_UNL, b"agt(detect, gate)".to_vec())
        .with(TAG_DATA, vec![0x17]);
    let back = BlockFile::decode(&msg.encode()).unwrap();
    assert_eq!(back.get(TAG_UNL), Some(b"agt(detect, gate)".as_slice()));
    assert_eq!(back.get(TAG_DATA), Some([0x17].as_slice()));
}

#[test]
fn tag_set_is_open() {
    let f = BlockFile::new()
        .with(TAG_STRING, b"hello".to_vec())
        .with(*b"XML ", b"<x/>".to_vec());
    let back = BlockFile::decode(&f.encode()).unwrap();
    assert_eq!(back.get(TAG_STRING), Some(b"hello".as_slice()));
    assert_eq!(back.get(*b"XML "), Some(b"<x/>".as_slice()));
}

#[test]
fn empty_container_roundtrips() {
    let bytes = BlockFile::new().encode();
    assert_eq!(BlockFile::decode(&bytes).unwrap(), BlockFile::new());
}

#[test]
fn rejects_bad_magic_and_truncation() {
    assert!(matches!(BlockFile::decode(b"XXXX...."), Err(BlockError::BadMagic)));
    assert!(matches!(BlockFile::decode(b"FB"), Err(BlockError::Truncated)));
    let mut bytes = BlockFile::new().with(TAG_UNL, vec![1, 2, 3]).encode();
    bytes.truncate(bytes.len() - 2);
    assert!(matches!(BlockFile::decode(&bytes), Err(BlockError::Truncated)));
}

#[test]
fn container_wire_layout_is_exact() {
    let bytes = BlockFile::new().with(TAG_DATA, vec![7, 8]).encode();
    assert_eq!(bytes, vec![b'F', b'B', b'L', b'K', 1, 0, 1, b'D', b'A', b'T', b'A', 0, 0, 0, 2, 7, 8]);
}

#[test]
fn unsupported_version_is_reported() {
    let bytes = vec![b'F', b'B', b'L', b'K', 9, 0, 0];
    assert!(matches!(BlockFile::decode(&bytes), Err(BlockError::Version(9))));
}

#[test]
fn first_block_of_a_tag_wins() {
    let f = BlockFile::new().with(TAG_DATA, vec![1]).with(TAG_DATA, vec![2]);
    assert_eq!(f.get(TAG_DATA), Some([1u8].as_slice()));
    assert!(BlockFile::is_block_container(&f.encode()));
    assert!(!BlockFile::is_block_container(b"FBL"));
}
