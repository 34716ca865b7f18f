//! Coinbase construction, block assembly and block serialization.

use crate::hexcode::{
    all_hex_digits, be_value, decode_hex, encode_hex, hex_bytes, hex_number_value, hex_text,
    is_hex_digit, is_hex_text, is_hex_u32_text, is_lower_hex_digit, lemma_hex_text_value,
    lemma_lower_hex_text_roundtrip, number_digits, parse_display_hash, parse_u32_hex,
};
use crate::rpc::{BlockTemplate, TemplateTransaction};
use crate::script_num::{bip34_push, encode_bip34_height};
use bitcoin::hashes::Hash as _;
use bitcoin::absolute::LockTime;
use bitcoin::transaction::Version as TxVersion;
use bitcoin::Block as BtcBlock;
use bitcoin::Transaction as BtcTx;
use bitcoin::{Amount, OutPoint, ScriptBuf, Sequence, TxIn, TxOut, Txid, Witness};
use vstd::prelude::*;

verus! {

/// The compact target of minimum difficulty on testnet4 (nBits = 0x1d00ffff).
pub const MIN_DIFFICULTY_BITS: u32 = 0x1d00ffff;

/// Why a coinbase transaction or a block could not be built.
#[derive(Debug, Clone, Copy, PartialEq, Eq, Structural)]
pub enum BuildError {
    /// The witness commitment is not hexadecimal text.
    InvalidWitnessCommitment,
    /// The template's compact target is not a 32-bit hexadecimal number.
    InvalidBits,
    /// The template's previous block hash is not sixty-four hexadecimal digits.
    InvalidBlockHash,
    /// A template transaction's data is not hexadecimal text.
    InvalidTemplateTxHex,
    /// A template transaction's bytes do not decode as a transaction.
    InvalidTemplateTx,
    /// Bytes do not decode as a block.
    InvalidBlock,
}

/// A transaction output: an amount in satoshis and its locking script.
pub struct TxOutput {
    pub value: u64,
    pub script_pubkey: Vec<u8>,
}

impl View for TxOutput {
    type V = (u64, Seq<u8>);

    open spec fn view(&self) -> (u64, Seq<u8>) {
        (self.value, self.script_pubkey@)
    }
}

/// A coinbase transaction: one input that spends nothing, and its outputs.
pub struct CoinbaseTransaction {
    pub version: i32,
    pub lock_time: u32,
    pub prev_txid: [u8; 32],
    pub prev_vout: u32,
    pub script_sig: Vec<u8>,
    pub sequence: u32,
    pub witness: Vec<Vec<u8>>,
    pub outputs: Vec<TxOutput>,
}

/// The contents of a coinbase transaction as plain values.
pub struct CoinbaseView {
    pub version: i32,
    pub lock_time: u32,
    pub prev_txid: Seq<u8>,
    pub prev_vout: u32,
    pub script_sig: Seq<u8>,
    pub sequence: u32,
    pub witness: Seq<Seq<u8>>,
    pub outputs: Seq<(u64, Seq<u8>)>,
}

impl View for CoinbaseTransaction {
    type V = CoinbaseView;

    open spec fn view(&self) -> CoinbaseView {
        CoinbaseView {
            version: self.version,
            lock_time: self.lock_time,
            prev_txid: self.prev_txid@,
            prev_vout: self.prev_vout,
            script_sig: self.script_sig@,
            sequence: self.sequence,
            witness: self.witness@.map_values(|w: Vec<u8>| w@),
            outputs: self.outputs@.map_values(|o: TxOutput| o@),
        }
    }
}

/// `n` zero bytes.
pub open spec fn zero_bytes(n: nat) -> Seq<u8> {
    Seq::new(n, |i: int| 0u8)
}

/// The four little-endian bytes of a 32-bit number.
pub open spec fn u32_le_bytes(n: u32) -> Seq<u8> {
    seq![
        (n % 256) as u8,
        ((n / 256) % 256) as u8,
        ((n / 65536) % 256) as u8,
        ((n / 16777216) % 256) as u8,
    ]
}

/// The tag `/testnet4-miner/` in ASCII.
pub open spec fn miner_tag() -> Seq<u8> {
    seq![47u8, 116, 101, 115, 116, 110, 101, 116, 52, 45, 109, 105, 110, 101, 114, 47]
}

/// The coinbase `script_sig`: the BIP34 height push, the extra nonce in
/// little-endian order, then the miner tag.
pub open spec fn coinbase_script_sig(height: u64, extra_nonce: u32) -> Seq<u8> {
    bip34_push(height as nat) + u32_le_bytes(extra_nonce) + miner_tag()
}

/// The decoded bytes of an optional witness commitment.
pub open spec fn commitment_bytes(commitment: Option<&str>) -> Option<Seq<u8>> {
    match commitment {
        Some(c) => Some(hex_bytes(c@)),
        None => None,
    }
}

/// The coinbase that pays `value` to `script_pubkey` at `height`; with a witness
/// commitment it carries a second, zero-valued output holding the commitment and a
/// witness of thirty-two zero bytes.
pub open spec fn coinbase_model(
    height: u64,
    value: u64,
    script_pubkey: Seq<u8>,
    commitment: Option<Seq<u8>>,
    extra_nonce: u32,
) -> CoinbaseView {
    CoinbaseView {
        version: 2,
        lock_time: 0,
        prev_txid: zero_bytes(32),
        prev_vout: 0xFFFF_FFFF,
        script_sig: coinbase_script_sig(height, extra_nonce),
        sequence: 0xFFFF_FFFF,
        witness: match commitment {
            Some(_) => seq![zero_bytes(32)],
            None => Seq::empty(),
        },
        outputs: match commitment {
            Some(c) => seq![(value, script_pubkey), (0u64, c)],
            None => seq![(value, script_pubkey)],
        },
    }
}

/// The little-endian bytes of `n`.
fn u32_le_vec(n: u32) -> (bytes: Vec<u8>)
    ensures
        bytes@ == u32_le_bytes(n),
{
    let mut bytes: Vec<u8> = Vec::new();
    bytes.push((n % 256) as u8);
    bytes.push(((n / 256) % 256) as u8);
    bytes.push(((n / 65536) % 256) as u8);
    bytes.push(((n / 16777216) % 256) as u8);
    bytes
}

/// `n` zero bytes.
fn zero_vec(n: usize) -> (bytes: Vec<u8>)
    ensures
        bytes@ == zero_bytes(n as nat),
{
    let mut bytes: Vec<u8> = Vec::new();
    let mut i: usize = 0;
    while i < n
        invariant
            i <= n,
            bytes@ == zero_bytes(i as nat),
        decreases n - i,
    {
        bytes.push(0u8);
        i = i + 1;
    }
    bytes
}

/// A copy of a byte slice.
fn copy_bytes(src: &[u8]) -> (bytes: Vec<u8>)
    ensures
        bytes@ == src@,
{
    let mut bytes: Vec<u8> = Vec::new();
    let mut i: usize = 0;
    while i < src.len()
        invariant
            i <= src@.len(),
            bytes@ == src@.subrange(0, i as int),
        decreases src@.len() - i,
    {
        bytes.push(src[i]);
        i = i + 1;
        proof {
            assert(src@.subrange(0, i as int) == src@.subrange(0, i - 1).push(src@[i - 1]));
        }
    }
    proof {
        assert(src@.subrange(0, src@.len() as int) == src@);
    }
    bytes
}

/// The miner tag as bytes.
fn miner_tag_vec() -> (bytes: Vec<u8>)
    ensures
        bytes@ == miner_tag(),
{
    let bytes: Vec<u8> = vec![47u8, 116, 101, 115, 116, 110, 101, 116, 52, 45, 109, 105, 110, 101, 114, 47];
    proof {
        assert(bytes@ =~= miner_tag());
    }
    bytes
}

/// Build the coinbase transaction for a block.
pub fn build_coinbase_tx(
    height: u64,
    coinbase_value: u64,
    miner_script_pubkey: &[u8],
    witness_commitment: Option<&str>,
    extra_nonce: u32,
) -> (r: Result<CoinbaseTransaction, BuildError>)
    ensures
        r is Err <==> (witness_commitment matches Some(c) && !is_hex_text(c@)),
        r matches Err(e) ==> e == BuildError::InvalidWitnessCommitment,
        r matches Ok(tx) ==> tx@ == coinbase_model(
            height,
            coinbase_value,
            miner_script_pubkey@,
            commitment_bytes(witness_commitment),
            extra_nonce,
        ),
{
    let mut script_sig = encode_bip34_height(height);
    let mut nonce_bytes = u32_le_vec(extra_nonce);
    script_sig.append(&mut nonce_bytes);
    let mut tag = miner_tag_vec();
    script_sig.append(&mut tag);

    let mut witness: Vec<Vec<u8>> = Vec::new();
    let mut outputs: Vec<TxOutput> = Vec::new();
    outputs.push(TxOutput { value: coinbase_value, script_pubkey: copy_bytes(miner_script_pubkey) });

    if let Some(commitment_hex) = witness_commitment {
        let commitment = match decode_hex(commitment_hex) {
            Ok(bytes) => bytes,
            Err(_) => {
                return Err(BuildError::InvalidWitnessCommitment);
            },
        };
        outputs.push(TxOutput { value: 0, script_pubkey: commitment });
        witness.push(zero_vec(32));
    }
    let tx = CoinbaseTransaction {
        version: 2,
        lock_time: 0,
        prev_txid: [0u8; 32],
        prev_vout: 0xFFFF_FFFF,
        script_sig,
        sequence: 0xFFFF_FFFF,
        witness,
        outputs,
    };
    proof {
        assert(tx.prev_txid@ =~= zero_bytes(32));
        assert(tx@.witness =~= coinbase_model(height, coinbase_value, miner_script_pubkey@, commitment_bytes(witness_commitment), extra_nonce).witness);
        assert(tx@.outputs =~= coinbase_model(height, coinbase_value, miner_script_pubkey@, commitment_bytes(witness_commitment), extra_nonce).outputs);
    }
    Ok(tx)
}

/// Parse compact target bits from hex string to the target's consensus `u32` form.
pub fn parse_bits(bits_hex: &str) -> (r: Result<u32, BuildError>)
    ensures
        r is Ok <==> is_hex_u32_text(bits_hex@),
        r matches Ok(bits) ==> bits as nat == hex_number_value(number_digits(bits_hex@)),
        r matches Err(e) ==> e == BuildError::InvalidBits,
{
    match parse_u32_hex(bits_hex) {
        Ok(bits) => Ok(bits),
        Err(_) => Err(BuildError::InvalidBits),
    }
}

/// Text that names a block hash: sixty-four hexadecimal digits.
pub open spec fn is_hash_text(s: Seq<char>) -> bool {
    s.len() == 64 && all_hex_digits(s)
}

/// Parse a block hash from hex string.
///
/// The text shows the hash last byte first; the result is the hash's internal
/// byte order.
pub fn parse_block_hash(hash_hex: &str) -> (r: Result<[u8; 32], BuildError>)
    ensures
        r is Ok <==> is_hash_text(hash_hex@),
        r matches Ok(hash) ==> hash@ == hex_bytes(hash_hex@).reverse(),
        r matches Err(e) ==> e == BuildError::InvalidBlockHash,
{
    match parse_display_hash(hash_hex) {
        Ok(hash) => Ok(hash),
        Err(_) => Err(BuildError::InvalidBlockHash),
    }
}

/// The big-endian bytes of a 32-bit number.
pub open spec fn u32_be_bytes(n: u32) -> Seq<u8> {
    seq![
        ((n / 16777216) % 256) as u8,
        ((n / 65536) % 256) as u8,
        ((n / 256) % 256) as u8,
        (n % 256) as u8,
    ]
}

/// The eight lower-case hexadecimal digits of a 32-bit number, most significant
/// first.
pub open spec fn u32_hex_text(n: u32) -> Seq<char> {
    hex_text(u32_be_bytes(n))
}

/// The eight-digit lower-case hexadecimal text of any compact target reads back
/// as that target.
pub proof fn lemma_bits_text_roundtrip(bits: u32)
    ensures
        is_hex_u32_text(u32_hex_text(bits)),
        hex_number_value(number_digits(u32_hex_text(bits))) == bits,
{
    let b = u32_be_bytes(bits);
    let t = u32_hex_text(bits);
    lemma_hex_text_value(b);
    assert(is_lower_hex_digit(t[0]));
    assert(number_digits(t) == t);
    assert forall|i: int| 0 <= i < t.len() implies is_hex_digit(#[trigger] t[i]) by {
        assert(is_lower_hex_digit(t[i]));
    }
    reveal_with_fuel(be_value, 5);
    assert(b.drop_last().drop_last().drop_last().drop_last() =~= Seq::<u8>::empty());
    assert(b.drop_last().drop_last().drop_last() =~= seq![b[0]]);
    assert(b.drop_last().drop_last() =~= seq![b[0], b[1]]);
    assert(b.drop_last() =~= seq![b[0], b[1], b[2]]);
    assert(bits == ((bits / 16777216) % 256) * 16777216 + ((bits / 65536) % 256) * 65536 + ((bits / 256) % 256)
        * 256 + bits % 256) by (bit_vector);
}

/// The display text of a hash: its bytes last first, in lower-case hexadecimal.
pub open spec fn hash_display_text(hash: Seq<u8>) -> Seq<char> {
    hex_text(hash.reverse())
}

/// A block hash parsed from sixty-four lower-case hexadecimal digits displays as
/// those digits.
pub proof fn lemma_block_hash_display_roundtrip(s: Seq<char>)
    requires
        s.len() == 64,
        forall|i: int| 0 <= i < s.len() ==> is_lower_hex_digit(#[trigger] s[i]),
    ensures
        is_hash_text(s),
        hash_display_text(hex_bytes(s).reverse()) == s,
{
    assert forall|i: int| 0 <= i < s.len() implies is_hex_digit(#[trigger] s[i]) by {
        assert(is_lower_hex_digit(s[i]));
    }
    assert(hex_bytes(s).reverse().reverse() =~= hex_bytes(s));
    lemma_lower_hex_text_roundtrip(s);
}

/// A block header with its fields as plain values; hashes are in internal byte
/// order and `bits` is the compact target in consensus form.
#[derive(Clone, Copy, Debug)]
pub struct BlockHeader {
    pub version: i32,
    pub prev_blockhash: [u8; 32],
    pub merkle_root: [u8; 32],
    pub time: u32,
    pub bits: u32,
    pub nonce: u32,
}

/// The 80-byte consensus encoding of a header: every number little-endian, the
/// hashes as stored.
pub open spec fn header_bytes(h: BlockHeader) -> Seq<u8> {
    u32_le_bytes(h.version as u32) + h.prev_blockhash@ + h.merkle_root@ + u32_le_bytes(h.time)
        + u32_le_bytes(h.bits) + u32_le_bytes(h.nonce)
}

/// A transaction input: the output it spends, its unlocking script, its sequence
/// number and its witness stack.
pub struct TxInput {
    pub prev_txid: [u8; 32],
    pub prev_vout: u32,
    pub script_sig: Vec<u8>,
    pub sequence: u32,
    pub witness: Vec<Vec<u8>>,
}

/// The contents of a transaction input as plain values.
pub struct TxInputView {
    pub prev_txid: Seq<u8>,
    pub prev_vout: u32,
    pub script_sig: Seq<u8>,
    pub sequence: u32,
    pub witness: Seq<Seq<u8>>,
}

impl View for TxInput {
    type V = TxInputView;

    open spec fn view(&self) -> TxInputView {
        TxInputView {
            prev_txid: self.prev_txid@,
            prev_vout: self.prev_vout,
            script_sig: self.script_sig@,
            sequence: self.sequence,
            witness: self.witness@.map_values(|w: Vec<u8>| w@),
        }
    }
}

/// A transaction with its fields as plain values.
pub struct Transaction {
    pub version: i32,
    pub lock_time: u32,
    pub input: Vec<TxInput>,
    pub output: Vec<TxOutput>,
}

/// The contents of a transaction as plain values.
pub struct TxView {
    pub version: i32,
    pub lock_time: u32,
    pub input: Seq<TxInputView>,
    pub output: Seq<(u64, Seq<u8>)>,
}

impl View for Transaction {
    type V = TxView;

    open spec fn view(&self) -> TxView {
        TxView {
            version: self.version,
            lock_time: self.lock_time,
            input: self.input@.map_values(|i: TxInput| i@),
            output: self.output@.map_values(|o: TxOutput| o@),
        }
    }
}

/// A coinbase as a general transaction: its one input and its outputs.
pub open spec fn coinbase_as_tx(cb: CoinbaseView) -> TxView {
    TxView {
        version: cb.version,
        lock_time: cb.lock_time,
        input: seq![
            TxInputView {
                prev_txid: cb.prev_txid,
                prev_vout: cb.prev_vout,
                script_sig: cb.script_sig,
                sequence: cb.sequence,
                witness: cb.witness,
            },
        ],
        output: cb.outputs,
    }
}

/// The coinbase as a general transaction.
pub fn coinbase_into_transaction(cb: CoinbaseTransaction) -> (tx: Transaction)
    ensures
        tx@ == coinbase_as_tx(cb@),
{
    let ghost v = cb@;
    let mut input: Vec<TxInput> = Vec::new();
    input.push(
        TxInput {
            prev_txid: cb.prev_txid,
            prev_vout: cb.prev_vout,
            script_sig: cb.script_sig,
            sequence: cb.sequence,
            witness: cb.witness,
        },
    );
    let tx = Transaction { version: cb.version, lock_time: cb.lock_time, input, output: cb.outputs };
    proof {
        assert(tx@.input =~= coinbase_as_tx(v).input);
    }
    tx
}

/// A block: its header and its transactions, coinbase first.
pub struct Block {
    pub header: BlockHeader,
    pub txdata: Vec<Transaction>,
}

#[verifier::external_type_specification]
#[verifier::external_body]
pub struct ExEncodeError(bitcoin::consensus::encode::Error);

/// The transaction id of a transaction (double SHA-256 of its encoding without
/// witness data), in internal byte order.
pub uninterp spec fn spec_txid(tx: TxView) -> Seq<u8>;

/// The consensus encoding of a transaction (with witness data when an input has
/// any).
pub uninterp spec fn spec_tx_encoding(tx: TxView) -> Seq<u8>;

/// The transaction that bytes decode to, with nothing left over, if any.
pub uninterp spec fn spec_decode_transaction(bytes: Seq<u8>) -> Option<TxView>;

/// The merkle root of a list of transaction ids, in internal byte order.
pub uninterp spec fn spec_merkle_root(txids: Seq<Seq<u8>>) -> Seq<u8>;

/// The byte sequences of a list of 32-byte hashes.
pub open spec fn hash_seqs(hashes: Seq<[u8; 32]>) -> Seq<Seq<u8>> {
    hashes.map_values(|h: [u8; 32]| h@)
}

/// The contents of a list of transactions.
pub open spec fn tx_views(txs: Seq<Transaction>) -> Seq<TxView> {
    txs.map_values(|t: Transaction| t@)
}

/// The ids of a list of transactions.
pub open spec fn txids_of(txs: Seq<TxView>) -> Seq<Seq<u8>> {
    txs.map_values(|t: TxView| spec_txid(t))
}

/// The encodings of a list of transactions.
pub open spec fn tx_encodings(txs: Seq<TxView>) -> Seq<Seq<u8>> {
    txs.map_values(|t: TxView| spec_tx_encoding(t))
}

/// The little-endian bytes of `n`, `width` of them.
pub open spec fn le_bytes_n(n: nat, width: nat) -> Seq<u8>
    decreases width,
{
    if width == 0 {
        Seq::empty()
    } else {
        seq![(n % 256) as u8] + le_bytes_n(n / 256, (width - 1) as nat)
    }
}

/// The compact-size encoding of a count: one byte below 0xfd, else a marker byte
/// and the count in two, four or eight little-endian bytes.
pub open spec fn compact_size(n: nat) -> Seq<u8> {
    if n < 0xfd {
        seq![n as u8]
    } else if n <= 0xffff {
        seq![0xfdu8] + le_bytes_n(n, 2)
    } else if n <= 0xffff_ffff {
        seq![0xfeu8] + le_bytes_n(n, 4)
    } else {
        seq![0xffu8] + le_bytes_n(n, 8)
    }
}

/// The consensus encoding of a block: its header, the number of its transactions,
/// then each transaction's encoding in order.
pub open spec fn block_bytes(block: Block) -> Seq<u8> {
    header_bytes(block.header) + compact_size(block.txdata@.len()) + tx_encodings(
        tx_views(block.txdata@),
    ).flatten()
}

/// Calls `bitcoin::consensus::deserialize::<bitcoin::Transaction>`, which fails
/// unless the bytes hold exactly one transaction, and reads the transaction's
/// fields out as plain values. The decoded transaction is named. Decoding undoes
/// the consensus encoding: the encoding of a transaction decodes to it when it
/// is no longer than 4,000,000 bytes (the decoder's bound on a witness).
#[verifier::external_body]
fn decode_transaction(bytes: &[u8]) -> (r: Result<Transaction, bitcoin::consensus::encode::Error>)
    ensures
        r is Ok <==> spec_decode_transaction(bytes@) is Some,
        r matches Ok(tx) ==> spec_decode_transaction(bytes@) == Some(tx@),
        (exists|v: TxView| #[trigger] spec_tx_encoding(v) == bytes@) && bytes@.len() <= 4_000_000 ==> r is Ok,
        r matches Ok(tx) ==> forall|v: TxView| #[trigger] spec_tx_encoding(v) == bytes@ ==> tx@ == v,
{
    let t: BtcTx = bitcoin::consensus::deserialize(bytes)?;
    Ok(Transaction { version: t.version.0, lock_time: t.lock_time.to_consensus_u32(),
        input: t.input.iter().map(|i| TxInput { prev_txid: i.previous_output.txid.to_byte_array(), prev_vout: i.previous_output.vout, script_sig: i.script_sig.to_bytes(), sequence: i.sequence.0, witness: i.witness.to_vec() }).collect(),
        output: t.output.iter().map(|o| TxOutput { value: o.value.to_sat(), script_pubkey: o.script_pubkey.to_bytes() }).collect() })
}

/// Calls `bitcoin::Transaction::compute_txid` on the transaction with the fields
/// of `tx`; the id is named.
#[verifier::external_body]
fn compute_txid(tx: &Transaction) -> (r: [u8; 32])
    ensures
        r@ == spec_txid(tx@),
{
    let input = tx.input.iter().map(|i| TxIn { previous_output: OutPoint { txid: Txid::from_byte_array(i.prev_txid), vout: i.prev_vout }, script_sig: ScriptBuf::from(i.script_sig.clone()), sequence: Sequence(i.sequence), witness: Witness::from_slice(&i.witness) }).collect();
    let output = tx.output.iter().map(|o| TxOut { value: Amount::from_sat(o.value), script_pubkey: ScriptBuf::from(o.script_pubkey.clone()) }).collect();
    BtcTx { version: TxVersion(tx.version), lock_time: LockTime::from_consensus(tx.lock_time), input, output }.compute_txid().to_byte_array()
}

/// Calls `bitcoin::consensus::serialize` on the transaction with the fields of
/// `tx`; the encoding is named.
#[verifier::external_body]
fn encode_transaction(tx: &Transaction) -> (r: Vec<u8>)
    ensures
        r@ == spec_tx_encoding(tx@),
{
    let input = tx.input.iter().map(|i| TxIn { previous_output: OutPoint { txid: Txid::from_byte_array(i.prev_txid), vout: i.prev_vout }, script_sig: ScriptBuf::from(i.script_sig.clone()), sequence: Sequence(i.sequence), witness: Witness::from_slice(&i.witness) }).collect();
    let output = tx.output.iter().map(|o| TxOut { value: Amount::from_sat(o.value), script_pubkey: ScriptBuf::from(o.script_pubkey.clone()) }).collect();
    bitcoin::consensus::serialize(&BtcTx { version: TxVersion(tx.version), lock_time: LockTime::from_consensus(tx.lock_time), input, output })
}

/// The `width` little-endian bytes of `n`.
fn le_vec(n: u64, width: usize) -> (bytes: Vec<u8>)
    ensures
        bytes@ == le_bytes_n(n as nat, width as nat),
{
    let mut bytes: Vec<u8> = Vec::new();
    let mut m: u64 = n;
    let mut k: usize = 0;
    while k < width
        invariant
            k <= width,
            bytes@ + le_bytes_n(m as nat, (width - k) as nat) == le_bytes_n(n as nat, width as nat),
        decreases width - k,
    {
        let ghost before = bytes@;
        let ghost rest = le_bytes_n(m as nat, (width - k) as nat);
        bytes.push((m % 256) as u8);
        assert(rest == seq![(m % 256) as u8] + le_bytes_n((m / 256) as nat, (width - k - 1) as nat));
        assert(bytes@ + le_bytes_n((m / 256) as nat, (width - k - 1) as nat) =~= before + rest);
        m = m / 256;
        k = k + 1;
    }
    assert(bytes@ + le_bytes_n(m as nat, 0) =~= bytes@);
    bytes
}

/// The compact-size encoding of a count.
pub fn compact_size_encoding(n: u64) -> (bytes: Vec<u8>)
    ensures
        bytes@ == compact_size(n as nat),
{
    if n < 0xfd {
        let mut bytes: Vec<u8> = Vec::new();
        bytes.push(n as u8);
        assert(bytes@ =~= compact_size(n as nat));
        bytes
    } else {
        let (marker, width): (u8, usize) = if n <= 0xffff {
            (0xfd, 2)
        } else if n <= 0xffff_ffff {
            (0xfe, 4)
        } else {
            (0xff, 8)
        };
        let mut bytes: Vec<u8> = Vec::new();
        bytes.push(marker);
        let mut rest = le_vec(n, width);
        bytes.append(&mut rest);
        bytes
    }
}

/// Each transaction's encoding, in order.
fn transaction_encodings(txs: &Vec<Transaction>) -> (encodings: Vec<Vec<u8>>)
    ensures
        byte_seqs(encodings@) == tx_encodings(tx_views(txs@)),
{
    let mut encodings: Vec<Vec<u8>> = Vec::new();
    let mut i: usize = 0;
    while i < txs.len()
        invariant
            i <= txs@.len(),
            byte_seqs(encodings@) == tx_encodings(tx_views(txs@.subrange(0, i as int))),
        decreases txs@.len() - i,
    {
        let ghost done = byte_seqs(encodings@);
        let enc = encode_transaction(&txs[i]);
        encodings.push(enc);
        proof {
            assert(byte_seqs(encodings@) =~= done.push(spec_tx_encoding(txs@[i as int]@)));
            assert(tx_encodings(tx_views(txs@.subrange(0, i + 1))) =~= done.push(spec_tx_encoding(txs@[i as int]@)));
        }
        i = i + 1;
    }
    assert(txs@.subrange(0, i as int) =~= txs@);
    encodings
}

/// The consensus encoding of a block from its header and its transactions'
/// encodings: the header, the number of transactions as a compact size, then
/// the encodings in order.
pub fn block_encoding(header: &BlockHeader, encodings: &Vec<Vec<u8>>) -> (bytes: Vec<u8>)
    ensures
        bytes@ == header_bytes(*header) + compact_size(encodings@.len()) + byte_seqs(encodings@).flatten(),
{
    let mut bytes = header_encoding(header);
    let mut count = compact_size_encoding(encodings.len() as u64);
    bytes.append(&mut count);
    let ghost prefix = bytes@;
    let mut i: usize = 0;
    while i < encodings.len()
        invariant
            i <= encodings@.len(),
            prefix == header_bytes(*header) + compact_size(encodings@.len()),
            bytes@ == prefix + byte_seqs(encodings@.subrange(0, i as int)).flatten(),
        decreases encodings@.len() - i,
    {
        let ghost done = byte_seqs(encodings@.subrange(0, i as int));
        let e = &encodings[i];
        let ghost ev = e@;
        let mut k: usize = 0;
        let ghost before = bytes@;
        while k < e.len()
            invariant
                k <= ev.len(),
                ev == e@,
                bytes@ == before + ev.subrange(0, k as int),
            decreases ev.len() - k,
        {
            bytes.push(e[k]);
            proof {
                assert(ev.subrange(0, k + 1) =~= ev.subrange(0, k as int).push(ev[k as int]));
            }
            k = k + 1;
        }
        proof {
            assert(ev.subrange(0, k as int) =~= ev);
            assert(byte_seqs(encodings@.subrange(0, i + 1)) =~= done.push(ev));
            done.lemma_flatten_push(ev);
        }
        i = i + 1;
    }
    assert(encodings@.subrange(0, i as int) =~= encodings@);
    bytes
}


/// The header and the transaction encodings that bytes decode to as a block, with
/// nothing left over, if any.
pub uninterp spec fn spec_decode_block(bytes: Seq<u8>) -> Option<(BlockHeader, Seq<Seq<u8>>)>;

/// The byte sequences of a list of byte vectors.
pub open spec fn byte_seqs(v: Seq<Vec<u8>>) -> Seq<Seq<u8>> {
    v.map_values(|b: Vec<u8>| b@)
}

/// Calls `bitcoin::consensus::deserialize::<bitcoin::Block>`, which fails unless
/// the bytes hold exactly one block, and hands back its header's fields and each
/// of its transactions encoded again by `bitcoin::consensus::serialize`; the
/// result is named. Decoding undoes the consensus encoding: the encoding of a
/// block decodes to its header and its transactions' encodings when it is no
/// longer than 4,000,000 bytes (the decoder's bound on a witness).
#[verifier::external_body]
fn decode_block(bytes: &[u8]) -> (r: Result<(BlockHeader, Vec<Vec<u8>>), bitcoin::consensus::encode::Error>)
    ensures
        r is Ok <==> spec_decode_block(bytes@) is Some,
        r matches Ok((h, txs)) ==> spec_decode_block(bytes@) == Some((h, byte_seqs(txs@))),
        (exists|b: Block| #[trigger] block_bytes(b) == bytes@) && bytes@.len() <= 4_000_000 ==> r is Ok,
        r matches Ok((h, txs)) ==> forall|b: Block|
            #[trigger] block_bytes(b) == bytes@ ==> h == b.header && byte_seqs(txs@) == tx_encodings(tx_views(b.txdata@)),
{
    let b: BtcBlock = bitcoin::consensus::deserialize(bytes)?;
    let h = b.header;
    let header = BlockHeader { version: h.version.to_consensus(), prev_blockhash: h.prev_blockhash.to_byte_array(), merkle_root: h.merkle_root.to_byte_array(), time: h.time, bits: h.bits.to_consensus(), nonce: h.nonce };
    Ok((header, b.txdata.iter().map(bitcoin::consensus::serialize).collect()))
}

/// Calls `bitcoin::merkle_tree::calculate_root` on the ids, which returns nothing
/// for an empty list and the id itself for a list of one; the root is named.
#[verifier::external_body]
fn merkle_root_of(txids: &Vec<[u8; 32]>) -> (r: Option<[u8; 32]>)
    ensures
        r is Some <==> txids@.len() > 0,
        r matches Some(root) ==> root@ == spec_merkle_root(hash_seqs(txids@)),
        txids@.len() == 1 ==> r == Some(txids@[0]),
{
    let hashes = txids.iter().map(|t| bitcoin::hashes::sha256d::Hash::from_byte_array(*t));
    bitcoin::merkle_tree::calculate_root(hashes).map(|h| h.to_byte_array())
}

/// The 80-byte encoding of a header.
pub fn header_encoding(h: &BlockHeader) -> (bytes: Vec<u8>)
    ensures
        bytes@ == header_bytes(*h),
{
    let mut bytes = u32_le_vec(h.version as u32);
    let mut prev = copy_bytes(h.prev_blockhash.as_slice());
    bytes.append(&mut prev);
    let mut root = copy_bytes(h.merkle_root.as_slice());
    bytes.append(&mut root);
    let mut time = u32_le_vec(h.time);
    bytes.append(&mut time);
    let mut bits = u32_le_vec(h.bits);
    bytes.append(&mut bits);
    let mut nonce = u32_le_vec(h.nonce);
    bytes.append(&mut nonce);
    bytes
}

/// What a template transaction's data fails on, if anything.
pub open spec fn template_tx_error(tx: TemplateTransaction) -> Option<BuildError> {
    if !is_hex_text(tx.data@) {
        Some(BuildError::InvalidTemplateTxHex)
    } else if spec_decode_transaction(hex_bytes(tx.data@)) is None {
        Some(BuildError::InvalidTemplateTx)
    } else {
        None
    }
}

/// The failure of the first template transaction that fails, if any.
pub open spec fn first_template_tx_error(txs: Seq<TemplateTransaction>) -> Option<BuildError>
    decreases txs.len(),
{
    if txs.len() == 0 {
        None
    } else {
        match template_tx_error(txs[0]) {
            Some(e) => Some(e),
            None => first_template_tx_error(txs.drop_first()),
        }
    }
}

/// The error with which building a block from `template` fails, if any: the
/// compact target is read first, then the previous block hash, then (when they
/// are included) the template's transactions in order.
pub open spec fn build_block_error(
    template: BlockTemplate,
    override_bits: Option<u32>,
    include_template_txs: bool,
) -> Option<BuildError> {
    if override_bits is None && !is_hex_u32_text(template.bits@) {
        Some(BuildError::InvalidBits)
    } else if !is_hash_text(template.previous_block_hash@) {
        Some(BuildError::InvalidBlockHash)
    } else if include_template_txs {
        first_template_tx_error(template.transactions@)
    } else {
        None
    }
}

/// The compact target a block is built with.
pub open spec fn chosen_bits(template: BlockTemplate, override_bits: Option<u32>) -> u32 {
    match override_bits {
        Some(b) => b,
        None => hex_number_value(number_digits(template.bits@)) as u32,
    }
}

/// The timestamp a block is built with: the override, else the template's
/// current time cut to 32 bits.
pub open spec fn chosen_time(template: BlockTemplate, override_time: Option<u32>) -> u32 {
    match override_time {
        Some(t) => t,
        None => template.cur_time as u32,
    }
}

/// A block's compact target is the override when one is given, and otherwise
/// the number the template's bits text denotes; its timestamp is the override
/// when one is given, and otherwise the template's current time cut to 32 bits.
pub proof fn lemma_block_terms_follow_template(
    template: BlockTemplate,
    override_time: Option<u32>,
    override_bits: Option<u32>,
)
    ensures
        override_bits matches Some(b) ==> chosen_bits(template, override_bits) == b,
        override_bits is None && is_hex_u32_text(template.bits@) ==> chosen_bits(template, override_bits) as nat
            == hex_number_value(number_digits(template.bits@)),
        override_time matches Some(t) ==> chosen_time(template, override_time) == t,
        override_time is None ==> chosen_time(template, override_time) as nat == template.cur_time as nat
            % 0x1_0000_0000,
{
    let c = template.cur_time;
    assert((c as u32) as nat == c as nat % 0x1_0000_0000) by (bit_vector);
}

/// The transaction that a template transaction's data decodes to.
pub open spec fn decoded_template_tx(tx: TemplateTransaction) -> TxView {
    spec_decode_transaction(hex_bytes(tx.data@))->0
}

/// The transactions of a block built from `coinbase` and `template`: the
/// coinbase, then (when included) the template's transactions in order, decoded.
pub open spec fn block_tx_views(coinbase: CoinbaseView, template: BlockTemplate, include_template_txs: bool) -> Seq<TxView> {
    seq![coinbase_as_tx(coinbase)] + if include_template_txs {
        template.transactions@.map_values(|t: TemplateTransaction| decoded_template_tx(t))
    } else {
        Seq::empty()
    }
}

proof fn lemma_first_template_tx_error(txs: Seq<TemplateTransaction>, i: int)
    requires
        0 <= i <= txs.len(),
        forall|k: int| 0 <= k < i ==> template_tx_error(#[trigger] txs[k]) is None,
    ensures
        i == txs.len() ==> first_template_tx_error(txs) is None,
        i < txs.len() && template_tx_error(txs[i]) is Some ==> first_template_tx_error(txs)
            == template_tx_error(txs[i]),
    decreases i,
{
    if i > 0 {
        let rest = txs.drop_first();
        assert forall|k: int| 0 <= k < i - 1 implies template_tx_error(#[trigger] rest[k]) is None by {
            assert(rest[k] == txs[k + 1]);
        }
        lemma_first_template_tx_error(rest, i - 1);
        assert(template_tx_error(txs[0]) is None);
        if i < txs.len() {
            assert(rest[i - 1] == txs[i]);
        }
    }
}

/// Build a complete block from template and coinbase transaction.
///
/// `override_time` and `override_bits` allow the caller to set a custom
/// timestamp and difficulty (for exploiting the 20-minute rule on testnet4).
pub fn build_block(
    template: &BlockTemplate,
    coinbase_tx: CoinbaseTransaction,
    override_time: Option<u32>,
    override_bits: Option<u32>,
    include_template_txs: bool,
) -> (r: Result<(Block, u32), BuildError>)
    ensures
        r is Err <==> build_block_error(*template, override_bits, include_template_txs) is Some,
        r matches Err(e) ==> Some(e) == build_block_error(*template, override_bits, include_template_txs),
        r matches Ok((block, bits)) ==> {
            &&& bits == chosen_bits(*template, override_bits)
            &&& override_bits matches Some(b) ==> bits == b
            &&& override_bits is None ==> bits as nat == hex_number_value(number_digits(template.bits@))
            &&& override_time matches Some(t) ==> block.header.time == t
            &&& override_time is None ==> block.header.time as nat == template.cur_time as nat % 0x1_0000_0000
            &&& block.header.bits == bits
            &&& block.header.version == template.version as i32
            &&& block.header.prev_blockhash@ == hex_bytes(template.previous_block_hash@).reverse()
            &&& block.header.time == chosen_time(*template, override_time)
            &&& block.header.nonce == 0
            &&& tx_views(block.txdata@) == block_tx_views(coinbase_tx@, *template, include_template_txs)
            &&& block.header.merkle_root@ == spec_merkle_root(txids_of(tx_views(block.txdata@)))
            &&& block.header.merkle_root@ == spec_merkle_root(
                txids_of(block_tx_views(coinbase_tx@, *template, include_template_txs)),
            )
            &&& !include_template_txs ==> block.header.merkle_root@ == spec_txid(coinbase_as_tx(coinbase_tx@))
        },
{
    proof {
        lemma_block_terms_follow_template(*template, override_time, override_bits);
    }
    let bits = match override_bits {
        Some(b) => b,
        None => parse_bits(&template.bits)?,
    };
    let block_time = match override_time {
        Some(t) => t,
        None => template.cur_time as u32,
    };
    let prev_hash = parse_block_hash(&template.previous_block_hash)?;

    let ghost cb = coinbase_tx@;
    let first = coinbase_into_transaction(coinbase_tx);
    let mut txids: Vec<[u8; 32]> = Vec::new();
    txids.push(compute_txid(&first));
    let mut txdata: Vec<Transaction> = Vec::new();
    txdata.push(first);
    proof {
        assert(tx_views(txdata@) =~= seq![coinbase_as_tx(cb)]);
        assert(hash_seqs(txids@) =~= txids_of(tx_views(txdata@)));
    }
    if include_template_txs {
        let txs = &template.transactions;
        let mut i: usize = 0;
        while i < txs.len()
            invariant
                i <= txs@.len(),
                txdata@.len() == i + 1,
                tx_views(txdata@) == seq![coinbase_as_tx(cb)] + txs@.subrange(0, i as int).map_values(
                    |t: TemplateTransaction| decoded_template_tx(t),
                ),
                hash_seqs(txids@) == txids_of(tx_views(txdata@)),
                forall|k: int| 0 <= k < i ==> template_tx_error(#[trigger] txs@[k]) is None,
                txs@ == template.transactions@,
                include_template_txs,
                !(override_bits is None && !is_hex_u32_text(template.bits@)),
                is_hash_text(template.previous_block_hash@),
            decreases txs@.len() - i,
        {
            let tx_bytes = match decode_hex(txs[i].data.as_str()) {
                Ok(bytes) => bytes,
                Err(_) => {
                    proof {
                        lemma_first_template_tx_error(txs@, i as int);
                    }
                    return Err(BuildError::InvalidTemplateTxHex);
                },
            };
            let tx = match decode_transaction(tx_bytes.as_slice()) {
                Ok(tx) => tx,
                Err(_) => {
                    proof {
                        lemma_first_template_tx_error(txs@, i as int);
                    }
                    return Err(BuildError::InvalidTemplateTx);
                },
            };
            let ghost before = tx_views(txdata@);
            let ghost ids_before = hash_seqs(txids@);
            txids.push(compute_txid(&tx));
            txdata.push(tx);
            proof {
                assert(tx_views(txdata@) =~= before.push(decoded_template_tx(txs@[i as int])));
                assert(txs@.subrange(0, i + 1).map_values(|t: TemplateTransaction| decoded_template_tx(t))
                    =~= txs@.subrange(0, i as int).map_values(|t: TemplateTransaction| decoded_template_tx(t)).push(
                    decoded_template_tx(txs@[i as int]),
                ));
                assert(hash_seqs(txids@) =~= ids_before.push(spec_txid(decoded_template_tx(txs@[i as int]))));
                assert(txids_of(tx_views(txdata@)) =~= txids_of(before).push(spec_txid(decoded_template_tx(txs@[i as int]))));
            }
            i = i + 1;
        }
        proof {
            lemma_first_template_tx_error(txs@, i as int);
            assert(txs@.subrange(0, i as int) =~= txs@);
        }
    }
    proof {
        assert(tx_views(txdata@) =~= block_tx_views(cb, *template, include_template_txs));
    }
    match assemble_block(template.version as i32, prev_hash, block_time, bits, txdata, merkle_root_of(&txids)) {
        Some(block) => Ok((block, bits)),
        None => Err(BuildError::InvalidTemplateTx),
    }
}

/// A block with nonce zero from its header fields, its transactions and their
/// merkle root, when there is one.
pub fn assemble_block(
    version: i32,
    prev_blockhash: [u8; 32],
    time: u32,
    bits: u32,
    txdata: Vec<Transaction>,
    merkle_root: Option<[u8; 32]>,
) -> (r: Option<Block>)
    ensures
        r is Some <==> merkle_root is Some,
        r matches Some(block) ==> {
            &&& block.header == (BlockHeader {
                version,
                prev_blockhash,
                merkle_root: merkle_root->0,
                time,
                bits,
                nonce: 0,
            })
            &&& block.txdata@ == txdata@
        },
{
    match merkle_root {
        Some(root) => Some(
            Block {
                header: BlockHeader { version, prev_blockhash, merkle_root: root, time, bits, nonce: 0 },
                txdata,
            },
        ),
        None => None,
    }
}

/// Serialize a block to hex string for RPC submission.
pub fn serialize_block(block: &Block) -> (r: String)
    ensures
        r@ == hex_text(block_bytes(*block)),
{
    let encodings = transaction_encodings(&block.txdata);
    let bytes = block_encoding(&block.header, &encodings);
    encode_hex(bytes.as_slice())
}

proof fn lemma_part_within_flatten(parts: Seq<Seq<u8>>, i: int)
    requires
        0 <= i < parts.len(),
    ensures
        parts[i].len() <= parts.flatten().len(),
{
    parts.lemma_flatten_and_flatten_alt_are_equivalent();
    parts.lemma_flatten_length_ge_single_element_length(i);
}

/// The header and transaction encodings that bytes decode to as a block.
pub open spec fn decoded_block_parts(bytes: Seq<u8>) -> (BlockHeader, Seq<Seq<u8>>) {
    spec_decode_block(bytes)->0
}

/// The transactions that encodings decode to.
pub open spec fn decoded_txs(encodings: Seq<Seq<u8>>) -> Seq<TxView> {
    encodings.map_values(|e: Seq<u8>| spec_decode_transaction(e)->0)
}

/// Read a block back from its consensus bytes. The bytes of any block that
/// `serialize_block` writes, up to 4,000,000 of them, read back as that block.
pub fn read_block(bytes: &[u8]) -> (r: Result<Block, BuildError>)
    ensures
        r is Ok <==> (spec_decode_block(bytes@) is Some && forall|i: int|
            0 <= i < decoded_block_parts(bytes@).1.len() ==> spec_decode_transaction(
                #[trigger] decoded_block_parts(bytes@).1[i],
            ) is Some),
        r matches Ok(block) ==> block.header == decoded_block_parts(bytes@).0 && tx_views(block.txdata@)
            == decoded_txs(decoded_block_parts(bytes@).1),
        r matches Err(e) ==> e == BuildError::InvalidBlock,
        forall|b: Block|
            #[trigger] block_bytes(b) == bytes@ && bytes@.len() <= 4_000_000 ==> (r matches Ok(block)
                && block.header == b.header && tx_views(block.txdata@) == tx_views(b.txdata@)),
{
    let (header, encodings) = match decode_block(bytes) {
        Ok(parts) => parts,
        Err(_) => {
            return Err(BuildError::InvalidBlock);
        },
    };
    let ghost encs = byte_seqs(encodings@);
    let mut txdata: Vec<Transaction> = Vec::new();
    let mut i: usize = 0;
    while i < encodings.len()
        invariant
            i <= encodings@.len(),
            encs == byte_seqs(encodings@),
            spec_decode_block(bytes@) == Some((header, encs)),
            forall|k: int| 0 <= k < i ==> spec_decode_transaction(#[trigger] encs[k]) is Some,
            tx_views(txdata@) == decoded_txs(encs.subrange(0, i as int)),
            forall|b: Block|
                #[trigger] block_bytes(b) == bytes@ ==> header == b.header && encs == tx_encodings(tx_views(b.txdata@))
                    && tx_views(txdata@) == tx_views(b.txdata@).subrange(0, i as int),
        decreases encodings@.len() - i,
    {
        let ghost done = tx_views(txdata@);
        let tx = match decode_transaction(encodings[i].as_slice()) {
            Ok(tx) => tx,
            Err(_) => {
                proof {
                    assert forall|b: Block|
                        #[trigger] block_bytes(b) == bytes@ && bytes@.len() <= 4_000_000 implies false by {
                        let v = tx_views(b.txdata@)[i as int];
                        assert(encs[i as int] == spec_tx_encoding(v));
                        lemma_part_within_flatten(encs, i as int);
                        assert(encs[i as int] == encodings@[i as int]@);
                    }
                    assert(!(spec_decode_transaction(encs[i as int]) is Some));
                }
                return Err(BuildError::InvalidBlock);
            },
        };
        proof {
            assert(encs[i as int] == encodings@[i as int]@);
            assert(decoded_txs(encs.subrange(0, i + 1)) =~= decoded_txs(encs.subrange(0, i as int)).push(tx@));
        }
        let ghost tv = tx@;
        txdata.push(tx);
        proof {
            assert(tx_views(txdata@) =~= done.push(tv));
            assert forall|b: Block| #[trigger] block_bytes(b) == bytes@ implies tx_views(txdata@) == tx_views(
                b.txdata@,
            ).subrange(0, i + 1) by {
                let v = tx_views(b.txdata@)[i as int];
                assert(encs[i as int] == spec_tx_encoding(v));
                assert(tv == v);
                assert(tx_views(b.txdata@).subrange(0, i + 1) =~= tx_views(b.txdata@).subrange(0, i as int).push(v));
            }
        }
        i = i + 1;
    }
    proof {
        assert(encs.subrange(0, i as int) =~= encs);
        assert forall|b: Block| #[trigger] block_bytes(b) == bytes@ implies tx_views(txdata@) == tx_views(
            b.txdata@,
        ) by {
            assert(tx_views(b.txdata@).subrange(0, i as int) =~= tx_views(b.txdata@));
        }
    }
    Ok(Block { header, txdata })
}

/// Distinct extra nonces give distinct coinbase scripts at the same height, so
/// cycling the extra nonce yields a new coinbase transaction each time.
pub proof fn lemma_extra_nonce_changes_script_sig(height: u64, first: u32, second: u32)
    requires
        first != second,
    ensures
        coinbase_script_sig(height, first) != coinbase_script_sig(height, second),
{
    let push = bip34_push(height as nat);
    let a = coinbase_script_sig(height, first);
    let b = coinbase_script_sig(height, second);
    if a == b {
        let k = push.len() as int;
        assert(a.subrange(k, k + 4) == u32_le_bytes(first));
        assert(b.subrange(k, k + 4) == u32_le_bytes(second));
        let x = u32_le_bytes(first);
        let y = u32_le_bytes(second);
        assert(x[0] == y[0] && x[1] == y[1] && x[2] == y[2] && x[3] == y[3]);
        assert(first == second) by (nonlinear_arith)
            requires
                first % 256 == second % 256,
                (first / 256) % 256 == (second / 256) % 256,
                (first / 65536) % 256 == (second / 65536) % 256,
                (first / 16777216) % 256 == (second / 16777216) % 256,
                first < 0x1_0000_0000,
                second < 0x1_0000_0000,
        ;
    }
}

} // verus!
