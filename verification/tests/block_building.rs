use bitcoin::hashes::Hash as _;
use testnet4_miner::block_builder::{
    assemble_block, block_encoding, build_block, build_coinbase_tx, compact_size_encoding, read_block, header_encoding, parse_bits,
    parse_block_hash, serialize_block, BuildError, CoinbaseTransaction, MIN_DIFFICULTY_BITS,
};
use testnet4_miner::rpc::{BlockTemplate, TemplateTransaction};
use testnet4_miner::script_num::encode_bip34_height;

const TAG: &[u8] = b"/testnet4-miner/";
const PREV_HASH: &str = "00000000000000000001e2b3c4d5e6f708192a3b4c5d6e7f8091a2b3c4d5e6f7";

fn template(bits: &str, prev: &str, txs: Vec<TemplateTransaction>) -> BlockTemplate {
    BlockTemplate {
        version: 0x2000_0000,
        previous_block_hash: prev.to_string(),
        transactions: txs,
        coinbasevalue: 5_000_012_345,
        target: "00000000ffff0000000000000000000000000000000000000000000000000000".to_string(),
        cur_time: 1_700_000_000,
        mintime: 1_699_999_000,
        bits: bits.to_string(),
        height: 50_000,
        default_witness_commitment: None,
    }
}

fn coinbase(height: u64, extra_nonce: u32) -> CoinbaseTransaction {
    build_coinbase_tx(height, 5_000_000_000, &[0x51, 0x20, 0xaa], None, extra_nonce).unwrap()
}

fn sample_tx_hex(vout: u32) -> String {
    let tx = bitcoin::Transaction {
        version: bitcoin::transaction::Version::TWO,
        lock_time: bitcoin::absolute::LockTime::ZERO,
        input: vec![bitcoin::TxIn {
            previous_output: bitcoin::OutPoint {
                txid: bitcoin::Txid::from_byte_array([7u8; 32]),
                vout,
            },
            script_sig: bitcoin::ScriptBuf::from_bytes(vec![0x51]),
            sequence: bitcoin::Sequence::MAX,
            witness: bitcoin::Witness::new(),
        }],
        output: vec![bitcoin::TxOut {
            value: bitcoin::Amount::from_sat(1000),
            script_pubkey: bitcoin::ScriptBuf::from_bytes(vec![0x51]),
        }],
    };
    hex::encode(bitcoin::consensus::encode::serialize(&tx))
}

fn template_tx(data: &str) -> TemplateTransaction {
    TemplateTransaction {
        data: data.to_string(),
        txid: String::new(),
        hash: String::new(),
        fee: 0,
        weight: 0,
    }
}

#[test]
fn bip34_height_encodings() {
    assert_eq!(encode_bip34_height(0), vec![1, 0]);
    assert_eq!(encode_bip34_height(1), vec![1, 1]);
    assert_eq!(encode_bip34_height(127), vec![1, 0x7f]);
    assert_eq!(encode_bip34_height(128), vec![2, 0x80, 0x00]);
    assert_eq!(encode_bip34_height(255), vec![2, 0xff, 0x00]);
    assert_eq!(encode_bip34_height(256), vec![2, 0x00, 0x01]);
    assert_eq!(encode_bip34_height(840_000), vec![3, 0x40, 0xd1, 0x0c]);
    assert_eq!(encode_bip34_height(0x8000), vec![3, 0x00, 0x80, 0x00]);
    let mut max = vec![9u8];
    max.extend([0xff; 8]);
    max.push(0);
    assert_eq!(encode_bip34_height(u64::MAX), max);
}

#[test]
fn bip34_push_reads_back_as_height() {
    for h in [1u64, 100, 128, 255, 32_768, 65_535, 840_000, 1 << 40, u64::MAX] {
        let push = encode_bip34_height(h);
        assert_eq!(push[0] as usize, push.len() - 1);
        let body = &push[1..];
        let last = *body.last().unwrap();
        assert!(last & 0x80 == 0);
        let mut value: u128 = 0;
        for (i, b) in body.iter().enumerate() {
            value |= (*b as u128) << (8 * i);
        }
        assert_eq!(value, h as u128);
        assert!(last != 0 || body[body.len() - 2] & 0x80 != 0);
    }
}

#[test]
fn coinbase_without_commitment() {
    let tx = build_coinbase_tx(840_000, 312_500_000, &[0x00, 0x14, 0xab], None, 0x0102_0304).unwrap();
    let mut script = vec![3, 0x40, 0xd1, 0x0c, 0x04, 0x03, 0x02, 0x01];
    script.extend_from_slice(TAG);
    assert_eq!(tx.script_sig, script);
    assert_eq!(tx.version, 2);
    assert_eq!(tx.lock_time, 0);
    assert_eq!(tx.prev_txid, [0u8; 32]);
    assert_eq!(tx.prev_vout, 0xFFFF_FFFF);
    assert_eq!(tx.sequence, 0xFFFF_FFFF);
    assert!(tx.witness.is_empty());
    assert_eq!(tx.outputs.len(), 1);
    assert_eq!(tx.outputs[0].value, 312_500_000);
    assert_eq!(tx.outputs[0].script_pubkey, vec![0x00, 0x14, 0xab]);
}

#[test]
fn coinbase_with_commitment() {
    let commitment = "6a24aa21a9edE2F61C3F71D1DEFD3FA999DFA36953755C690689799962B48BEBD836974E8CF9";
    let tx = build_coinbase_tx(5, 100, &[0x51], Some(commitment), 7).unwrap();
    assert_eq!(tx.outputs.len(), 2);
    assert_eq!(tx.outputs[1].value, 0);
    assert_eq!(tx.outputs[1].script_pubkey, hex::decode(commitment).unwrap());
    assert_eq!(tx.outputs[1].script_pubkey[..6], [0x6a, 0x24, 0xaa, 0x21, 0xa9, 0xed]);
    assert_eq!(tx.witness, vec![vec![0u8; 32]]);
    let mut script = vec![1, 5, 7, 0, 0, 0];
    script.extend_from_slice(TAG);
    assert_eq!(tx.script_sig, script);
}

#[test]
fn coinbase_rejects_bad_commitment() {
    assert!(matches!(
        build_coinbase_tx(5, 100, &[0x51], Some("6a2"), 0),
        Err(BuildError::InvalidWitnessCommitment)
    ));
    assert!(matches!(
        build_coinbase_tx(5, 100, &[0x51], Some("zz"), 0),
        Err(BuildError::InvalidWitnessCommitment)
    ));
    assert!(build_coinbase_tx(5, 100, &[0x51], Some(""), 0).is_ok());
}

#[test]
fn bits_parsing() {
    assert_eq!(parse_bits("1d00ffff"), Ok(MIN_DIFFICULTY_BITS));
    assert_eq!(parse_bits("1D00FFFF"), Ok(0x1d00ffff));
    assert_eq!(parse_bits("+207fffff"), Ok(0x207fffff));
    assert_eq!(parse_bits("ffffffff"), Ok(u32::MAX));
    assert_eq!(parse_bits("100000000"), Err(BuildError::InvalidBits));
    assert_eq!(parse_bits(""), Err(BuildError::InvalidBits));
    assert_eq!(parse_bits("+"), Err(BuildError::InvalidBits));
    assert_eq!(parse_bits("1d00fffg"), Err(BuildError::InvalidBits));
    assert_eq!(parse_bits(" 1d00ffff"), Err(BuildError::InvalidBits));
}

#[test]
fn block_hash_parsing_reverses_display_order() {
    let hash = parse_block_hash(PREV_HASH).unwrap();
    let mut expected = hex::decode(PREV_HASH).unwrap();
    expected.reverse();
    assert_eq!(hash.to_vec(), expected);
    assert_eq!(hash[31], 0x00);
    assert_eq!(hash[0], 0xf7);
    assert_eq!(parse_block_hash(&PREV_HASH[1..]), Err(BuildError::InvalidBlockHash));
    let bad = format!("{}x", &PREV_HASH[1..]);
    assert_eq!(parse_block_hash(&bad), Err(BuildError::InvalidBlockHash));
}

#[test]
fn empty_block_header_and_merkle_root() {
    let t = template("1d00ffff", PREV_HASH, vec![template_tx("zz")]);
    let cb = coinbase(t.height, 3);
    let (block, bits) = build_block(&t, cb, None, None, false).unwrap();
    assert_eq!(bits, 0x1d00ffff);
    assert_eq!(block.header.bits, 0x1d00ffff);
    assert_eq!(block.header.version, 0x2000_0000);
    assert_eq!(block.header.time, 1_700_000_000);
    assert_eq!(block.header.nonce, 0);
    assert_eq!(block.txdata.len(), 1);
    assert_eq!(block.txdata[0].input.len(), 1);
    assert_eq!(block.txdata[0].input[0].prev_vout, 0xFFFF_FFFF);
    let bytes = hex::decode(serialize_block(&block)).unwrap();
    let decoded: bitcoin::Block = bitcoin::consensus::deserialize(&bytes).unwrap();
    let txid = decoded.txdata[0].compute_txid().to_byte_array();
    assert_eq!(block.header.merkle_root, txid);
    assert_eq!(block.header.prev_blockhash, parse_block_hash(PREV_HASH).unwrap());
}

#[test]
fn overrides_take_precedence() {
    let t = template("not-hex", PREV_HASH, vec![]);
    let (block, bits) = build_block(&t, coinbase(1, 0), Some(1234), Some(0x207fffff), false).unwrap();
    assert_eq!(bits, 0x207fffff);
    assert_eq!(block.header.bits, 0x207fffff);
    assert_eq!(block.header.time, 1234);
}

#[test]
fn template_time_is_cut_to_32_bits() {
    let mut t = template("1d00ffff", PREV_HASH, vec![]);
    t.cur_time = (1u64 << 32) + 5;
    let (block, _) = build_block(&t, coinbase(1, 0), None, None, false).unwrap();
    assert_eq!(block.header.time, 5);
}

#[test]
fn block_errors() {
    let t = template("xyz", PREV_HASH, vec![]);
    assert!(matches!(build_block(&t, coinbase(1, 0), None, None, false), Err(BuildError::InvalidBits)));
    let t = template("1d00ffff", "abc", vec![]);
    assert!(matches!(build_block(&t, coinbase(1, 0), None, None, false), Err(BuildError::InvalidBlockHash)));
    let t = template("1d00ffff", PREV_HASH, vec![template_tx("0g")]);
    assert!(matches!(build_block(&t, coinbase(1, 0), None, None, true), Err(BuildError::InvalidTemplateTxHex)));
    let t = template("1d00ffff", PREV_HASH, vec![template_tx("00")]);
    assert!(matches!(build_block(&t, coinbase(1, 0), None, None, true), Err(BuildError::InvalidTemplateTx)));
    let good = sample_tx_hex(0);
    let t = template("1d00ffff", PREV_HASH, vec![template_tx(&good), template_tx("0102")]);
    assert!(matches!(build_block(&t, coinbase(1, 0), None, None, true), Err(BuildError::InvalidTemplateTx)));
}

#[test]
fn block_with_template_transactions() {
    let a = sample_tx_hex(0);
    let b = sample_tx_hex(1);
    let t = template("1d00ffff", PREV_HASH, vec![template_tx(&a), template_tx(&b)]);
    let (block, _) = build_block(&t, coinbase(t.height, 9), None, None, true).unwrap();
    assert_eq!(block.txdata.len(), 3);
    let bytes = hex::decode(serialize_block(&block)).unwrap();
    let decoded: bitcoin::Block = bitcoin::consensus::deserialize(&bytes).unwrap();
    assert!(decoded.check_merkle_root());
    assert_eq!(decoded.txdata.len(), 3);
    assert!(decoded.txdata[0].is_coinbase());
    assert_eq!(hex::encode(bitcoin::consensus::encode::serialize(&decoded.txdata[1])), a);
    assert_eq!(decoded.header.merkle_root.to_byte_array(), block.header.merkle_root);
    let tx_b: bitcoin::Transaction = bitcoin::consensus::deserialize(&hex::decode(&b).unwrap()).unwrap();
    let ours = &block.txdata[2];
    assert_eq!(ours.version, 2);
    assert_eq!(ours.lock_time, 0);
    assert_eq!(ours.input.len(), 1);
    assert_eq!(ours.input[0].prev_txid, [7u8; 32]);
    assert_eq!(ours.input[0].prev_vout, 1);
    assert_eq!(ours.input[0].script_sig, vec![0x51]);
    assert_eq!(ours.input[0].sequence, 0xFFFF_FFFF);
    assert!(ours.input[0].witness.is_empty());
    assert_eq!(ours.output.len(), 1);
    assert_eq!(ours.output[0].value, 1000);
    assert_eq!(ours.output[0].script_pubkey, vec![0x51]);
    assert_eq!(decoded.txdata[2], tx_b);
    let ids: Vec<bitcoin::hashes::sha256d::Hash> =
        decoded.txdata.iter().map(|t| t.compute_txid().to_raw_hash()).collect();
    let root = bitcoin::merkle_tree::calculate_root(ids.into_iter()).unwrap();
    assert_eq!(root.to_byte_array(), block.header.merkle_root);
}

#[test]
fn block_with_empty_template_holds_only_the_coinbase() {
    let t = template("1d00ffff", PREV_HASH, vec![]);
    let (with, _) = build_block(&t, coinbase(t.height, 4), None, None, true).unwrap();
    let (without, _) = build_block(&t, coinbase(t.height, 4), None, None, false).unwrap();
    assert_eq!(with.txdata.len(), 1);
    assert_eq!(with.header.merkle_root, without.header.merkle_root);
    assert_eq!(serialize_block(&with), serialize_block(&without));
}

#[test]
fn serialized_block_length() {
    let a = sample_tx_hex(0);
    let t = template("1d00ffff", PREV_HASH, vec![template_tx(&a)]);
    let (block, _) = build_block(&t, coinbase(t.height, 1), None, None, true).unwrap();
    let text = serialize_block(&block);
    let bytes = hex::decode(&text).unwrap();
    let decoded: bitcoin::Block = bitcoin::consensus::deserialize(&bytes).unwrap();
    assert_eq!(text.len(), 2 * bitcoin::consensus::serialize(&decoded).len());
    assert_eq!(bytes[80], 2);
    assert_eq!(hex::encode(header_encoding(&block.header)), text[..160].to_string());
}

#[test]
fn compact_size_encodings() {
    assert_eq!(compact_size_encoding(0), vec![0]);
    assert_eq!(compact_size_encoding(0xfc), vec![0xfc]);
    assert_eq!(compact_size_encoding(0xfd), vec![0xfd, 0xfd, 0x00]);
    assert_eq!(compact_size_encoding(0xffff), vec![0xfd, 0xff, 0xff]);
    assert_eq!(compact_size_encoding(0x1_0000), vec![0xfe, 0x00, 0x00, 0x01, 0x00]);
    assert_eq!(compact_size_encoding(0xffff_ffff), vec![0xfe, 0xff, 0xff, 0xff, 0xff]);
    assert_eq!(
        compact_size_encoding(0x1_0000_0000),
        vec![0xff, 0x00, 0x00, 0x00, 0x00, 0x01, 0x00, 0x00, 0x00]
    );
    for n in [0u64, 1, 0xfc, 0xfd, 0x1234, 0xffff, 0x10000, 0xdead_beef, 0x1_0000_0000, u64::MAX] {
        assert_eq!(compact_size_encoding(n), bitcoin::consensus::serialize(&bitcoin::VarInt(n)));
    }
}

#[test]
fn serialized_block_round_trips() {
    let t = template("1d00ffff", PREV_HASH, vec![]);
    let commitment = "6a24aa21a9ed0000000000000000000000000000000000000000000000000000000000000000";
    let cb = build_coinbase_tx(t.height, 5_000_000_000, &[0x51, 0x20, 0xaa], Some(commitment), 42).unwrap();
    let (mut block, _) = build_block(&t, cb, None, None, false).unwrap();
    block.header.nonce = 0xdead_beef;
    let text = serialize_block(&block);
    assert_eq!(text, text.to_lowercase());
    let bytes = hex::decode(&text).unwrap();
    let decoded: bitcoin::Block = bitcoin::consensus::deserialize(&bytes).unwrap();
    assert_eq!(decoded.header.nonce, 0xdead_beef);
    assert_eq!(decoded.header.time, 1_700_000_000);
    assert_eq!(decoded.header.bits.to_consensus(), 0x1d00ffff);
    assert_eq!(decoded.header.prev_blockhash.to_string(), PREV_HASH);
    assert!(decoded.check_merkle_root());
    let cbtx = &decoded.txdata[0];
    assert!(cbtx.is_coinbase());
    assert_eq!(cbtx.output.len(), 2);
    assert_eq!(cbtx.output[0].value.to_sat(), 5_000_000_000);
    assert_eq!(cbtx.input[0].witness.len(), 1);
    assert_eq!(cbtx.input[0].script_sig.as_bytes()[..4], [3, 0x50, 0xc3, 0x00]);
    assert_eq!(&bytes[76..80], &0xdead_beefu32.to_le_bytes());
    assert_eq!(&bytes[0..4], &0x2000_0000u32.to_le_bytes());
}

#[test]
fn extra_nonces_give_distinct_coinbases() {
    let a = build_coinbase_tx(50_000, 1, &[0x51], None, 0).unwrap();
    let b = build_coinbase_tx(50_000, 1, &[0x51], None, 1).unwrap();
    let c = build_coinbase_tx(50_000, 1, &[0x51], None, 256).unwrap();
    assert_ne!(a.script_sig, b.script_sig);
    assert_ne!(a.script_sig, c.script_sig);
    assert_eq!(a.script_sig.len(), b.script_sig.len());
    let t = template("1d00ffff", PREV_HASH, vec![]);
    let (ba, _) = build_block(&t, a, None, None, false).unwrap();
    let (bb, _) = build_block(&t, b, None, None, false).unwrap();
    assert_ne!(ba.header.merkle_root, bb.header.merkle_root);
}

#[test]
fn eight_digit_bits_text_reads_back() {
    for n in [0u32, 1, 0x1d00ffff, 0x207fffff, 0x0000_abcd, 0x8000_0000, u32::MAX] {
        assert_eq!(parse_bits(&format!("{:08x}", n)), Ok(n));
    }
}

#[test]
fn parsed_block_hash_displays_as_its_text() {
    for text in [PREV_HASH, "000000000000000000000000000000000000000000000000000000000000abcd"] {
        let hash = parse_block_hash(text).unwrap();
        assert_eq!(bitcoin::BlockHash::from_byte_array(hash).to_string(), text);
    }
}

#[test]
fn serialized_block_reads_back_as_itself() {
    let a = sample_tx_hex(0);
    let b = sample_tx_hex(5);
    let t = template("1d00ffff", PREV_HASH, vec![template_tx(&a), template_tx(&b)]);
    let commitment = "6a24aa21a9ed0000000000000000000000000000000000000000000000000000000000000000";
    let cb = build_coinbase_tx(t.height, 5_000_000_000, &[0x51], Some(commitment), 3).unwrap();
    let (mut block, _) = build_block(&t, cb, Some(77), None, true).unwrap();
    block.header.nonce = 12345;
    let bytes = hex::decode(serialize_block(&block)).unwrap();
    let back = read_block(&bytes).unwrap();
    assert_eq!(back.header.version, block.header.version);
    assert_eq!(back.header.prev_blockhash, block.header.prev_blockhash);
    assert_eq!(back.header.merkle_root, block.header.merkle_root);
    assert_eq!(back.header.time, 77);
    assert_eq!(back.header.bits, block.header.bits);
    assert_eq!(back.header.nonce, 12345);
    assert_eq!(back.txdata.len(), 3);
    for (x, y) in back.txdata.iter().zip(block.txdata.iter()) {
        assert_eq!(x.version, y.version);
        assert_eq!(x.lock_time, y.lock_time);
        assert_eq!(x.input.len(), y.input.len());
        for (i, j) in x.input.iter().zip(y.input.iter()) {
            assert_eq!(i.prev_txid, j.prev_txid);
            assert_eq!(i.prev_vout, j.prev_vout);
            assert_eq!(i.script_sig, j.script_sig);
            assert_eq!(i.sequence, j.sequence);
            assert_eq!(i.witness, j.witness);
        }
        assert_eq!(x.output.len(), y.output.len());
        for (o, p) in x.output.iter().zip(y.output.iter()) {
            assert_eq!(o.value, p.value);
            assert_eq!(o.script_pubkey, p.script_pubkey);
        }
    }
    assert_eq!(back.txdata[0].input[0].witness, vec![vec![0u8; 32]]);
}

#[test]
fn bad_block_bytes_are_refused() {
    assert!(matches!(read_block(&[]), Err(BuildError::InvalidBlock)));
    assert!(matches!(read_block(&[0u8; 80]), Err(BuildError::InvalidBlock)));
    let t = template("1d00ffff", PREV_HASH, vec![]);
    let (block, _) = build_block(&t, coinbase(1, 0), None, None, false).unwrap();
    let mut bytes = hex::decode(serialize_block(&block)).unwrap();
    bytes.push(0);
    assert!(matches!(read_block(&bytes), Err(BuildError::InvalidBlock)));
}

#[test]
fn block_encoding_from_parts() {
    let t = template("1d00ffff", PREV_HASH, vec![]);
    let (block, _) = build_block(&t, coinbase(1, 0), None, None, false).unwrap();
    let encodings = vec![vec![0xaa, 0xbb], vec![], vec![0xcc]];
    let bytes = block_encoding(&block.header, &encodings);
    assert_eq!(bytes.len(), 80 + 1 + 3);
    assert_eq!(&bytes[80..], &[3, 0xaa, 0xbb, 0xcc]);
    assert_eq!(hex::encode(&bytes[..80]), serialize_block(&block)[..160].to_string());
}

#[test]
fn blocks_assembled_from_parts() {
    assert!(assemble_block(1, [2u8; 32], 3, 4, Vec::new(), None).is_none());
    let b = assemble_block(1, [2u8; 32], 3, 4, Vec::new(), Some([5u8; 32])).unwrap();
    assert_eq!(b.header.version, 1);
    assert_eq!(b.header.prev_blockhash, [2u8; 32]);
    assert_eq!(b.header.merkle_root, [5u8; 32]);
    assert_eq!(b.header.time, 3);
    assert_eq!(b.header.bits, 4);
    assert_eq!(b.header.nonce, 0);
    assert!(b.txdata.is_empty());
}
