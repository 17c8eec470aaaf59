use jormungandr_core::{
    accept_network_block_0, blocks_hashes_to_tip, content_hash, deserialize, load_blockchain,
    parse_hex_hash, prepare_block_0, read_block_0_file, Block, Block0Outcome, BlockStore,
    BootstrapPath, GenesisSpec, StartupError,
};

fn block0(payload: &[u8]) -> Block {
    Block { parent: None, height: 0, payload: payload.to_vec() }
}

#[test]
fn content_hash_is_deterministic() {
    let a = vec![1u8, 2, 3];
    let b = vec![1u8, 2, 3];
    let c = vec![1u8, 2, 4];
    assert_eq!(content_hash(&a), content_hash(&b));
    assert_ne!(content_hash(&a), content_hash(&c));
}

#[test]
fn block_roundtrip_without_parent() {
    let b = block0(b"genesis data");
    let bytes = b.serialize();
    let back = deserialize(&bytes).expect("valid encoding");
    assert_eq!(back.parent, None);
    assert_eq!(back.height, 0);
    assert_eq!(back.payload, b"genesis data".to_vec());
    assert_eq!(back.content_id(), b.content_id());
}

#[test]
fn block_roundtrip_with_parent() {
    let b = Block { parent: Some(0xdeadbeef), height: 7, payload: vec![9u8; 40] };
    let bytes = b.serialize();
    let back = deserialize(&bytes).expect("valid encoding");
    assert_eq!(back.parent, Some(0xdeadbeef));
    assert_eq!(back.height, 7);
    assert_eq!(back.payload, vec![9u8; 40]);
}

#[test]
fn deserialize_rejects_bad_encodings() {
    // too short for the header
    assert!(deserialize(&vec![0u8; 16]).is_none());
    // unknown flag byte
    let mut bytes = block0(b"x").serialize();
    bytes[0] = 2;
    assert!(deserialize(&bytes).is_none());
    // nonzero parent under a "no parent" flag
    let mut bytes = block0(b"x").serialize();
    bytes[3] = 1;
    assert!(deserialize(&bytes).is_none());
    // length field does not match the payload
    let mut bytes = block0(b"xyz").serialize();
    bytes.pop();
    assert!(deserialize(&bytes).is_none());
}

#[test]
fn resolution_priority_store_hit_means_no_network() {
    // A ByHash spec whose hash the store holds resolves to the stored block
    // and never asks for a network fetch.
    let mut store = BlockStore::new();
    let b = block0(b"stored genesis");
    let id = b.content_id();
    let payload = b.payload.clone();
    store.put_block(b);
    let genesis = GenesisSpec::ByHash(id);
    match prepare_block_0(&genesis, &store).expect("resolution succeeds") {
        Block0Outcome::Resolved(got) => {
            assert_eq!(got.content_id(), id);
            assert_eq!(got.payload, payload);
        }
        Block0Outcome::FetchFromNetwork(_) => panic!("network fetch requested on a store hit"),
    }
}

#[test]
fn fallback_store_miss_asks_network_exactly_once() {
    let store = BlockStore::new();
    let genesis = GenesisSpec::ByHash(77);
    match prepare_block_0(&genesis, &store).expect("resolution succeeds") {
        Block0Outcome::FetchFromNetwork(h) => assert_eq!(h, 77),
        Block0Outcome::Resolved(_) => panic!("resolved a block from an empty store"),
    }
}

#[test]
fn network_block_with_wrong_hash_is_never_accepted() {
    let wrong = block0(b"some other block");
    let wrong_id = wrong.content_id();
    let requested = wrong_id.wrapping_add(1);
    match accept_network_block_0(requested, Some(wrong)) {
        Err(StartupError::IntegrityError { requested: rq, computed }) => {
            assert_eq!(rq, requested);
            assert_eq!(computed, wrong_id);
        }
        Ok(_) => panic!("accepted a block whose hash does not match"),
        Err(e) => panic!("unexpected error: {:?}", e),
    }
}

#[test]
fn network_miss_is_not_found() {
    match accept_network_block_0(99, None) {
        Err(StartupError::NotFoundError { hash }) => assert_eq!(hash, 99),
        other => panic!("unexpected outcome: {:?}", other),
    }
}

#[test]
fn network_block_with_matching_hash_is_accepted() {
    let b = block0(b"fetched genesis");
    let id = b.content_id();
    let got = accept_network_block_0(id, Some(b)).expect("matching hash accepted");
    assert_eq!(got.content_id(), id);
}

#[test]
fn inline_bad_bytes_are_a_terminal_deserialize_error() {
    let store = BlockStore::new();
    let genesis = GenesisSpec::Inline(vec![0u8; 5]);
    match prepare_block_0(&genesis, &store) {
        Err(StartupError::DeserializeError) => {}
        other => panic!("unexpected outcome: {:?}", other),
    }
}

#[test]
fn unreadable_genesis_file_is_an_io_error() {
    match read_block_0_file(None) {
        Err(StartupError::IoError) => {}
        other => panic!("unexpected outcome: {:?}", other),
    }
    match read_block_0_file(Some(vec![1u8, 2, 3])) {
        Ok(GenesisSpec::Inline(bytes)) => assert_eq!(bytes, vec![1u8, 2, 3]),
        other => panic!("unexpected outcome: {:?}", other),
    }
}

#[test]
fn bootstrap_resume_is_idempotent() {
    // Bootstrapping twice with the same block 0 against the same store
    // yields the same tip both times and no duplicate block-0 write.
    let mut store = BlockStore::new();
    let b = block0(b"the chain root");
    let id = b.content_id();
    let (first, first_path) =
        load_blockchain(b, &mut store).expect("fresh bootstrap succeeds");
    assert_eq!(first_path, BootstrapPath::Fresh);
    assert_eq!(first.root, id);
    assert_eq!(first.tip, id);

    let again = block0(b"the chain root");
    let (second, second_path) =
        load_blockchain(again, &mut store).expect("resumed bootstrap succeeds");
    assert_eq!(second_path, BootstrapPath::Resume);
    assert_eq!(second.root, first.root);
    assert_eq!(second.tip, first.tip);
}

#[test]
fn bootstrap_resumes_at_the_stored_tip() {
    let mut store = BlockStore::new();
    let b = block0(b"root of a grown chain");
    let id = b.content_id();
    let (_, path) = load_blockchain(b, &mut store).expect("fresh bootstrap succeeds");
    assert_eq!(path, BootstrapPath::Fresh);

    // the chain grows by one block; the tip tag moves with it
    let child = Block { parent: Some(id), height: 1, payload: b"second block".to_vec() };
    let child_id = child.content_id();
    store.put_block(child);
    store.set_tip(child_id);

    let again = block0(b"root of a grown chain");
    let (resumed, path) = load_blockchain(again, &mut store).expect("resume succeeds");
    assert_eq!(path, BootstrapPath::Resume);
    assert_eq!(resumed.root, id);
    assert_eq!(resumed.tip, child_id);
}

#[test]
fn bootstrap_fails_on_a_store_with_no_tip() {
    let mut store = BlockStore::new();
    let b = block0(b"orphaned root");
    store.put_block(b);
    // block 0 is present but no tip was ever recorded: inconsistent store
    let again = block0(b"orphaned root");
    match load_blockchain(again, &mut store) {
        Err(StartupError::StorageBackendError) => {}
        other => panic!("unexpected outcome: {:?}", other),
    }
}

#[test]
fn end_to_end_inline_resolution_and_double_bootstrap() {
    // Inline genesis bytes resolve without touching storage or network;
    // the first bootstrap runs Fresh, the second resumes with the same tip.
    let source_block = block0(b"inline genesis payload");
    let bytes = source_block.serialize();
    let mut store = BlockStore::new();

    let genesis = GenesisSpec::Inline(bytes);
    let resolved = match prepare_block_0(&genesis, &store).expect("inline resolution succeeds") {
        Block0Outcome::Resolved(b) => b,
        Block0Outcome::FetchFromNetwork(_) => panic!("inline bytes asked for the network"),
    };
    let id = resolved.content_id();
    assert!(!store.block_exists(id), "resolution must not touch the store");

    let (first, first_path) = load_blockchain(resolved, &mut store).expect("fresh bootstrap succeeds");
    assert_eq!(first_path, BootstrapPath::Fresh);
    let resolved_again = match prepare_block_0(&GenesisSpec::ByHash(id), &store)
        .expect("second resolution succeeds")
    {
        Block0Outcome::Resolved(b) => b,
        Block0Outcome::FetchFromNetwork(_) => panic!("stored block asked for the network"),
    };
    let (second, second_path) =
        load_blockchain(resolved_again, &mut store).expect("resumed bootstrap succeeds");
    assert_eq!(second_path, BootstrapPath::Resume);
    assert_eq!(second.tip, first.tip);
}

#[test]
fn hex_hash_text_parses_to_the_named_hash() {
    assert_eq!(parse_hex_hash(&b"00000000deadbeef".to_vec()), Some(0xdeadbeef));
    assert_eq!(parse_hex_hash(&b"00000000DEADBEEF".to_vec()), Some(0xdeadbeef));
    assert_eq!(parse_hex_hash(&b"ffffffffffffffff".to_vec()), Some(u64::MAX));
    assert_eq!(parse_hex_hash(&b"0123456789abcdef".to_vec()), Some(0x0123456789abcdef));
    // wrong length
    assert_eq!(parse_hex_hash(&b"deadbeef".to_vec()), None);
    // a non-digit byte
    assert_eq!(parse_hex_hash(&b"0000000000000zzz".to_vec()), None);
}

#[test]
fn error_descriptions_name_the_failed_stage() {
    assert_eq!(
        StartupError::NotFoundError { hash: 5 }.describe(),
        "block 0 absent from storage and network"
    );
    assert_eq!(StartupError::IoError.describe(), "cannot read the genesis source");
    assert_eq!(StartupError::DeserializeError.describe(), "malformed genesis bytes");
}

#[test]
fn block_runs_map_to_their_hashes() {
    let a = block0(b"first");
    let b = Block { parent: Some(a.content_id()), height: 1, payload: b"second".to_vec() };
    let expected = vec![a.content_id(), b.content_id()];
    assert_eq!(blocks_hashes_to_tip(&vec![a, b]), expected);
    assert_eq!(blocks_hashes_to_tip(&Vec::new()), Vec::<u64>::new());
}
