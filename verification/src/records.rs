//! The typed response records and their decoders.
//!
//! Each record is a pure projection of one JSON-RPC response. Fields that
//! the node reports as fractional numbers (difficulty, hash rate, total
//! amount) keep the number's literal text, exactly as it stood in the
//! response. Hashes and transaction ids are hex strings.
//!
//! For each record `X` there is a mathematical twin (its view) and a spec
//! decoder `x_of: Json -> Option<view>`; the executable decoder computes
//! exactly that function.

use vstd::prelude::*;

use crate::codec::obj_lookup;
use crate::json::{jv_view_seq, Json, JsonValue};
use crate::num::{lex_u64, parse_u64_digits};
use crate::text::str_chars;

verus! {

// ----------------------------------------------------------------------------
// Scalar readings of a JSON value
// ----------------------------------------------------------------------------

/// The value of an unsigned integer number.
pub open spec fn ju64(j: Json) -> Option<u64> {
    match j {
        Json::Num(t) => lex_u64(t),
        _ => None,
    }
}

pub open spec fn ju32(j: Json) -> Option<u32> {
    match ju64(j) {
        Some(n) => if n <= u32::MAX {
            Some(n as u32)
        } else {
            None
        },
        None => None,
    }
}

pub open spec fn jbool(j: Json) -> Option<bool> {
    match j {
        Json::Bool(b) => Some(b),
        _ => None,
    }
}

pub open spec fn jstr(j: Json) -> Option<Seq<char>> {
    match j {
        Json::Str(t) => Some(t),
        _ => None,
    }
}

/// The literal text of a number, fractional or not.
pub open spec fn jnum_text(j: Json) -> Option<Seq<char>> {
    match j {
        Json::Num(t) => Some(t),
        _ => None,
    }
}

pub fn as_u64(v: &JsonValue) -> (r: Option<u64>)
    ensures
        r == ju64(v@),
{
    match v {
        JsonValue::Num(s) => {
            let cs = str_chars(s.as_str());
            parse_u64_digits(&cs)
        },
        _ => None,
    }
}

pub fn as_u32(v: &JsonValue) -> (r: Option<u32>)
    ensures
        r == ju32(v@),
{
    match as_u64(v) {
        Some(n) => if n <= u32::MAX as u64 {
            Some(n as u32)
        } else {
            None
        },
        None => None,
    }
}

pub fn as_bool(v: &JsonValue) -> (r: Option<bool>)
    ensures
        r == jbool(v@),
{
    match v {
        JsonValue::Bool(b) => Some(*b),
        _ => None,
    }
}

pub fn as_string(v: &JsonValue) -> (r: Option<String>)
    ensures
        match r {
            Some(t) => jstr(v@) == Some(t@),
            None => jstr(v@) is None,
        },
{
    match v {
        JsonValue::Str(s) => Some(s.clone()),
        _ => None,
    }
}

pub fn as_num_text(v: &JsonValue) -> (r: Option<String>)
    ensures
        match r {
            Some(t) => jnum_text(v@) == Some(t@),
            None => jnum_text(v@) is None,
        },
{
    match v {
        JsonValue::Num(s) => Some(s.clone()),
        _ => None,
    }
}

/// Borrow the member with the given key: the first one, as `obj_lookup`.
pub fn obj_get<'a>(m: &'a Vec<(String, JsonValue)>, key: &str) -> (r: Option<&'a JsonValue>)
    ensures
        match r {
            Some(v) => obj_lookup(crate::json::jv_view_members(m@), key@) == Some(v@),
            None => obj_lookup(crate::json::jv_view_members(m@), key@) is None,
        },
{
    let k = String::from_str(key);
    let ghost vm = crate::json::jv_view_members(m@);
    proof {
        crate::json::lemma_jv_view_members_len(m@);
        assert(vm.subrange(0, vm.len() as int) =~= vm);
    }
    let mut i: usize = 0;
    while i < m.len()
        invariant
            0 <= i <= m@.len(),
            k@ == key@,
            vm == crate::json::jv_view_members(m@),
            vm.len() == m@.len(),
            forall|t: int| 0 <= t < m@.len() ==> #[trigger] vm[t] == (m@[t].0@, m@[t].1@),
            obj_lookup(vm, key@) == obj_lookup(vm.subrange(i as int, vm.len() as int), key@),
        decreases m@.len() - i,
    {
        let ghost suf = vm.subrange(i as int, vm.len() as int);
        assert(suf[0] == (m@[i as int].0@, m@[i as int].1@));
        if m[i].0.eq(&k) {
            assert(obj_lookup(suf, key@) == Some(m@[i as int].1@));
            return Some(&m[i].1);
        }
        assert(suf.drop_first() =~= vm.subrange(i + 1 as int, vm.len() as int));
        assert(obj_lookup(suf, key@) == obj_lookup(suf.drop_first(), key@));
        i = i + 1;
    }
    proof {
        assert(vm.subrange(vm.len() as int, vm.len() as int) =~= Seq::<(Seq<char>, Json)>::empty());
    }
    None
}

// ----------------------------------------------------------------------------
// Field readings: a required or an optional field of an object
// ----------------------------------------------------------------------------

/// A required `u64` field.
pub open spec fn req_u64(m: Seq<(Seq<char>, Json)>, key: Seq<char>) -> Option<u64> {
    match obj_lookup(m, key) {
        Some(v) => ju64(v),
        None => None,
    }
}

/// A required `u32` field.
pub open spec fn req_u32(m: Seq<(Seq<char>, Json)>, key: Seq<char>) -> Option<u32> {
    match obj_lookup(m, key) {
        Some(v) => ju32(v),
        None => None,
    }
}

/// A required boolean field.
pub open spec fn req_bool(m: Seq<(Seq<char>, Json)>, key: Seq<char>) -> Option<bool> {
    match obj_lookup(m, key) {
        Some(v) => jbool(v),
        None => None,
    }
}

/// A required string field.
pub open spec fn req_str(m: Seq<(Seq<char>, Json)>, key: Seq<char>) -> Option<Seq<char>> {
    match obj_lookup(m, key) {
        Some(v) => jstr(v),
        None => None,
    }
}

/// A required number field, kept as text.
pub open spec fn req_num_text(m: Seq<(Seq<char>, Json)>, key: Seq<char>) -> Option<Seq<char>> {
    match obj_lookup(m, key) {
        Some(v) => jnum_text(v),
        None => None,
    }
}

/// An optional `u64` field: absent is fine, a wrong shape is not.
pub open spec fn opt_u64(m: Seq<(Seq<char>, Json)>, key: Seq<char>) -> Option<Option<u64>> {
    match obj_lookup(m, key) {
        Some(v) => match ju64(v) {
            Some(n) => Some(Some(n)),
            None => None,
        },
        None => Some(None),
    }
}

/// An optional string field: absent is fine, a wrong shape is not.
pub open spec fn opt_str(m: Seq<(Seq<char>, Json)>, key: Seq<char>) -> Option<
    Option<Seq<char>>,
> {
    match obj_lookup(m, key) {
        Some(v) => match jstr(v) {
            Some(t) => Some(Some(t)),
            None => None,
        },
        None => Some(None),
    }
}

// ----------------------------------------------------------------------------
// The records and their mathematical twins
// ----------------------------------------------------------------------------

pub open spec fn opt_str_v(o: Option<String>) -> Option<Seq<char>> {
    match o {
        Some(t) => Some(t@),
        None => None,
    }
}

#[derive(Debug, Clone, PartialEq, Eq)]
pub struct NetworkInfo {
    pub version: u32,
    pub network_active: bool,
}

#[derive(Debug, Clone, PartialEq, Eq)]
pub struct TxIndex {
    pub synced: bool,
    pub best_block_height: u32,
}

#[derive(Debug, Clone, PartialEq, Eq)]
pub struct IndexInfo {
    pub txindex: TxIndex,
}

#[derive(Debug, Clone, PartialEq, Eq)]
pub struct PeerInfo {
    pub id: u32,
    pub addr: String,
    pub network: String,
}

pub struct PeerInfoV {
    pub id: u32,
    pub addr: Seq<char>,
    pub network: Seq<char>,
}

impl View for PeerInfo {
    type V = PeerInfoV;

    open spec fn view(&self) -> PeerInfoV {
        PeerInfoV { id: self.id, addr: self.addr@, network: self.network@ }
    }
}

#[derive(Debug, Clone, PartialEq, Eq)]
pub struct BlockchainInfo {
    pub chain: String,
    pub blocks: u64,
    pub headers: u64,
    pub best_block_hash: String,
    /// The node reports a fractional number; its literal text is kept.
    pub difficulty: String,
    pub median_time: u64,
    pub initial_block_download: bool,
    pub size_on_disk: u64,
    pub pruned: bool,
}

pub struct BlockchainInfoV {
    pub chain: Seq<char>,
    pub blocks: u64,
    pub headers: u64,
    pub best_block_hash: Seq<char>,
    pub difficulty: Seq<char>,
    pub median_time: u64,
    pub initial_block_download: bool,
    pub size_on_disk: u64,
    pub pruned: bool,
}

impl View for BlockchainInfo {
    type V = BlockchainInfoV;

    open spec fn view(&self) -> BlockchainInfoV {
        BlockchainInfoV {
            chain: self.chain@,
            blocks: self.blocks,
            headers: self.headers,
            best_block_hash: self.best_block_hash@,
            difficulty: self.difficulty@,
            median_time: self.median_time,
            initial_block_download: self.initial_block_download,
            size_on_disk: self.size_on_disk,
            pruned: self.pruned,
        }
    }
}

#[derive(Debug, Clone, PartialEq, Eq)]
pub struct MiningInfo {
    pub blocks: u64,
    /// The node reports a fractional number; its literal text is kept.
    pub difficulty: String,
    /// The node reports a fractional number; its literal text is kept.
    pub network_hash_ps: String,
    pub pooled_tx: u64,
    pub chain: String,
}

pub struct MiningInfoV {
    pub blocks: u64,
    pub difficulty: Seq<char>,
    pub network_hash_ps: Seq<char>,
    pub pooled_tx: u64,
    pub chain: Seq<char>,
}

impl View for MiningInfo {
    type V = MiningInfoV;

    open spec fn view(&self) -> MiningInfoV {
        MiningInfoV {
            blocks: self.blocks,
            difficulty: self.difficulty@,
            network_hash_ps: self.network_hash_ps@,
            pooled_tx: self.pooled_tx,
            chain: self.chain@,
        }
    }
}

#[derive(Debug, Clone, PartialEq, Eq)]
pub struct TxOutSetInfo {
    pub height: u64,
    pub best_block: String,
    pub tx_outs: u64,
    /// The node reports a fractional number; its literal text is kept.
    pub total_amount: String,
}

pub struct TxOutSetInfoV {
    pub height: u64,
    pub best_block: Seq<char>,
    pub tx_outs: u64,
    pub total_amount: Seq<char>,
}

impl View for TxOutSetInfo {
    type V = TxOutSetInfoV;

    open spec fn view(&self) -> TxOutSetInfoV {
        TxOutSetInfoV {
            height: self.height,
            best_block: self.best_block@,
            tx_outs: self.tx_outs,
            total_amount: self.total_amount@,
        }
    }
}

/// One transaction output: its value (number text), its index within the
/// transaction, and the address its output script pays to, where the node
/// reports one.
#[derive(Debug, Clone, PartialEq, Eq)]
pub struct TxOut {
    pub value: String,
    pub n: Option<u64>,
    pub address: Option<String>,
}

pub struct TxOutV {
    pub value: Seq<char>,
    pub n: Option<u64>,
    pub address: Option<Seq<char>>,
}

impl View for TxOut {
    type V = TxOutV;

    open spec fn view(&self) -> TxOutV {
        TxOutV { value: self.value@, n: self.n, address: opt_str_v(self.address) }
    }
}

/// One transaction input. A coinbase input has no previous transaction id
/// and no previous output index. `prevout` starts absent in every decoded
/// transaction; only enrichment fills it.
#[derive(Debug, Clone, PartialEq, Eq)]
pub struct TxIn {
    pub txid: Option<String>,
    pub vout: Option<u64>,
    pub prevout: Option<TxOut>,
}

pub struct TxInV {
    pub txid: Option<Seq<char>>,
    pub vout: Option<u64>,
    pub prevout: Option<TxOutV>,
}

impl View for TxIn {
    type V = TxInV;

    open spec fn view(&self) -> TxInV {
        TxInV {
            txid: opt_str_v(self.txid),
            vout: self.vout,
            prevout: match self.prevout {
                Some(p) => Some(p@),
                None => None,
            },
        }
    }
}

/// A decoded transaction: its id and its ordered inputs and outputs.
#[derive(Debug, Clone, PartialEq, Eq)]
pub struct Transaction {
    pub txid: String,
    pub vin: Vec<TxIn>,
    pub vout: Vec<TxOut>,
}

pub struct TransactionV {
    pub txid: Seq<char>,
    pub vin: Seq<TxInV>,
    pub vout: Seq<TxOutV>,
}

pub open spec fn txin_views(s: Seq<TxIn>) -> Seq<TxInV>
    decreases s,
{
    if s.len() == 0 {
        Seq::empty()
    } else {
        seq![s[0]@] + txin_views(s.drop_first())
    }
}

pub open spec fn txout_views(s: Seq<TxOut>) -> Seq<TxOutV>
    decreases s,
{
    if s.len() == 0 {
        Seq::empty()
    } else {
        seq![s[0]@] + txout_views(s.drop_first())
    }
}

impl View for Transaction {
    type V = TransactionV;

    open spec fn view(&self) -> TransactionV {
        TransactionV { txid: self.txid@, vin: txin_views(self.vin@), vout: txout_views(self.vout@) }
    }
}

pub open spec fn tx_views(s: Seq<Transaction>) -> Seq<TransactionV>
    decreases s,
{
    if s.len() == 0 {
        Seq::empty()
    } else {
        seq![s[0]@] + tx_views(s.drop_first())
    }
}

/// A decoded block: header facts and its ordered transactions.
#[derive(Debug, Clone, PartialEq, Eq)]
pub struct Block {
    pub hash: String,
    pub confirmations: u64,
    pub size: u64,
    pub height: u64,
    pub version: u64,
    pub tx: Vec<Transaction>,
}

pub struct BlockV {
    pub hash: Seq<char>,
    pub confirmations: u64,
    pub size: u64,
    pub height: u64,
    pub version: u64,
    pub tx: Seq<TransactionV>,
}

impl View for Block {
    type V = BlockV;

    open spec fn view(&self) -> BlockV {
        BlockV {
            hash: self.hash@,
            confirmations: self.confirmations,
            size: self.size,
            height: self.height,
            version: self.version,
            tx: tx_views(self.tx@),
        }
    }
}

// ----------------------------------------------------------------------------
// Spec decoders
// ----------------------------------------------------------------------------

pub open spec fn network_info_of(j: Json) -> Option<NetworkInfo> {
    match j {
        Json::Obj(m) => match (req_u32(m, "version"@), req_bool(m, "networkactive"@)) {
            (Some(version), Some(network_active)) => Some(
                NetworkInfo { version, network_active },
            ),
            _ => None,
        },
        _ => None,
    }
}

pub open spec fn tx_index_of(j: Json) -> Option<TxIndex> {
    match j {
        Json::Obj(m) => match (req_bool(m, "synced"@), req_u32(m, "best_block_height"@)) {
            (Some(synced), Some(best_block_height)) => Some(
                TxIndex { synced, best_block_height },
            ),
            _ => None,
        },
        _ => None,
    }
}

pub open spec fn index_info_of(j: Json) -> Option<IndexInfo> {
    match j {
        Json::Obj(m) => match obj_lookup(m, "txindex"@) {
            Some(t) => match tx_index_of(t) {
                Some(txindex) => Some(IndexInfo { txindex }),
                None => None,
            },
            None => None,
        },
        _ => None,
    }
}

pub open spec fn peer_info_of(j: Json) -> Option<PeerInfoV> {
    match j {
        Json::Obj(m) => match (req_u32(m, "id"@), req_str(m, "addr"@), req_str(m, "network"@)) {
            (Some(id), Some(addr), Some(network)) => Some(PeerInfoV { id, addr, network }),
            _ => None,
        },
        _ => None,
    }
}

pub open spec fn peer_views(s: Seq<PeerInfo>) -> Seq<PeerInfoV>
    decreases s,
{
    if s.len() == 0 {
        Seq::empty()
    } else {
        seq![s[0]@] + peer_views(s.drop_first())
    }
}

pub open spec fn peers_of(a: Seq<Json>) -> Option<Seq<PeerInfoV>>
    decreases a,
{
    if a.len() == 0 {
        Some(Seq::empty())
    } else {
        match (peer_info_of(a[0]), peers_of(a.drop_first())) {
            (Some(p), Some(r)) => Some(seq![p] + r),
            _ => None,
        }
    }
}

pub open spec fn blockchain_info_of(j: Json) -> Option<BlockchainInfoV> {
    match j {
        Json::Obj(m) => match (
            req_str(m, "chain"@),
            req_u64(m, "blocks"@),
            req_u64(m, "headers"@),
            req_str(m, "bestblockhash"@),
            req_num_text(m, "difficulty"@),
            req_u64(m, "mediantime"@),
            req_bool(m, "initialblockdownload"@),
            req_u64(m, "size_on_disk"@),
            req_bool(m, "pruned"@),
        ) {
            (
                Some(chain),
                Some(blocks),
                Some(headers),
                Some(best_block_hash),
                Some(difficulty),
                Some(median_time),
                Some(initial_block_download),
                Some(size_on_disk),
                Some(pruned),
            ) => Some(
                BlockchainInfoV {
                    chain,
                    blocks,
                    headers,
                    best_block_hash,
                    difficulty,
                    median_time,
                    initial_block_download,
                    size_on_disk,
                    pruned,
                },
            ),
            _ => None,
        },
        _ => None,
    }
}

pub open spec fn mining_info_of(j: Json) -> Option<MiningInfoV> {
    match j {
        Json::Obj(m) => match (
            req_u64(m, "blocks"@),
            req_num_text(m, "difficulty"@),
            req_num_text(m, "networkhashps"@),
            req_u64(m, "pooledtx"@),
            req_str(m, "chain"@),
        ) {
            (Some(blocks), Some(difficulty), Some(network_hash_ps), Some(pooled_tx), Some(
                chain,
            )) => Some(MiningInfoV { blocks, difficulty, network_hash_ps, pooled_tx, chain }),
            _ => None,
        },
        _ => None,
    }
}

pub open spec fn tx_out_set_info_of(j: Json) -> Option<TxOutSetInfoV> {
    match j {
        Json::Obj(m) => match (
            req_u64(m, "height"@),
            req_str(m, "bestblock"@),
            req_u64(m, "txouts"@),
            req_num_text(m, "total_amount"@),
        ) {
            (Some(height), Some(best_block), Some(tx_outs), Some(total_amount)) => Some(
                TxOutSetInfoV { height, best_block, tx_outs, total_amount },
            ),
            _ => None,
        },
        _ => None,
    }
}

pub open spec fn txout_of(j: Json) -> Option<TxOutV> {
    match j {
        Json::Obj(m) => match (req_num_text(m, "value"@), opt_u64(m, "n"@)) {
            (Some(value), Some(n)) => match obj_lookup(m, "scriptPubKey"@) {
                Some(Json::Obj(sm)) => match opt_str(sm, "address"@) {
                    Some(address) => Some(TxOutV { value, n, address }),
                    None => None,
                },
                Some(_) => None,
                None => Some(TxOutV { value, n, address: None }),
            },
            _ => None,
        },
        _ => None,
    }
}

pub open spec fn txin_of(j: Json) -> Option<TxInV> {
    match j {
        Json::Obj(m) => match (opt_str(m, "txid"@), opt_u64(m, "vout"@)) {
            (Some(txid), Some(vout)) => Some(TxInV { txid, vout, prevout: None }),
            _ => None,
        },
        _ => None,
    }
}

pub open spec fn txouts_of(a: Seq<Json>) -> Option<Seq<TxOutV>>
    decreases a,
{
    if a.len() == 0 {
        Some(Seq::empty())
    } else {
        match (txout_of(a[0]), txouts_of(a.drop_first())) {
            (Some(x), Some(r)) => Some(seq![x] + r),
            _ => None,
        }
    }
}

pub open spec fn txins_of(a: Seq<Json>) -> Option<Seq<TxInV>>
    decreases a,
{
    if a.len() == 0 {
        Some(Seq::empty())
    } else {
        match (txin_of(a[0]), txins_of(a.drop_first())) {
            (Some(x), Some(r)) => Some(seq![x] + r),
            _ => None,
        }
    }
}

pub open spec fn transaction_of(j: Json) -> Option<TransactionV> {
    match j {
        Json::Obj(m) => match (
            req_str(m, "txid"@),
            obj_lookup(m, "vin"@),
            obj_lookup(m, "vout"@),
        ) {
            (Some(txid), Some(Json::Arr(vin)), Some(Json::Arr(vout))) => match (
                txins_of(vin),
                txouts_of(vout),
            ) {
                (Some(vi), Some(vo)) => Some(TransactionV { txid, vin: vi, vout: vo }),
                _ => None,
            },
            _ => None,
        },
        _ => None,
    }
}

pub open spec fn txs_of(a: Seq<Json>) -> Option<Seq<TransactionV>>
    decreases a,
{
    if a.len() == 0 {
        Some(Seq::empty())
    } else {
        match (transaction_of(a[0]), txs_of(a.drop_first())) {
            (Some(x), Some(r)) => Some(seq![x] + r),
            _ => None,
        }
    }
}

pub open spec fn block_of(j: Json) -> Option<BlockV> {
    match j {
        Json::Obj(m) => match (
            req_str(m, "hash"@),
            req_u64(m, "confirmations"@),
            req_u64(m, "size"@),
            req_u64(m, "height"@),
            req_u64(m, "version"@),
            obj_lookup(m, "tx"@),
        ) {
            (Some(hash), Some(confirmations), Some(size), Some(height), Some(version), Some(
                Json::Arr(txa),
            )) => match txs_of(txa) {
                Some(tx) => Some(BlockV { hash, confirmations, size, height, version, tx }),
                None => None,
            },
            _ => None,
        },
        _ => None,
    }
}

/// The views of a vector of strings.
pub open spec fn str_views(s: Seq<String>) -> Seq<Seq<char>>
    decreases s,
{
    if s.len() == 0 {
        Seq::empty()
    } else {
        seq![s[0]@] + str_views(s.drop_first())
    }
}

/// An array of strings, such as the mempool's transaction ids.
pub open spec fn strings_of(a: Seq<Json>) -> Option<Seq<Seq<char>>>
    decreases a,
{
    if a.len() == 0 {
        Some(Seq::empty())
    } else {
        match (jstr(a[0]), strings_of(a.drop_first())) {
            (Some(t), Some(r)) => Some(seq![t] + r),
            _ => None,
        }
    }
}

// ----------------------------------------------------------------------------
// Executable decoders: each computes exactly its spec decoder
// ----------------------------------------------------------------------------

pub fn network_info_from_json(v: &JsonValue) -> (r: Option<NetworkInfo>)
    ensures
        r == network_info_of(v@),
{
    match v {
        JsonValue::Obj(m) => {
            let version = match obj_get(m, "version") {
                Some(f) => match as_u32(f) {
                    Some(x) => x,
                    None => {
                        return None;
                    },
                },
                None => {
                    return None;
                },
            };
            let network_active = match obj_get(m, "networkactive") {
                Some(f) => match as_bool(f) {
                    Some(x) => x,
                    None => {
                        return None;
                    },
                },
                None => {
                    return None;
                },
            };
            Some(NetworkInfo { version, network_active })
        },
        _ => None,
    }
}

pub fn tx_index_from_json(v: &JsonValue) -> (r: Option<TxIndex>)
    ensures
        r == tx_index_of(v@),
{
    match v {
        JsonValue::Obj(m) => {
            let synced = match obj_get(m, "synced") {
                Some(f) => match as_bool(f) {
                    Some(x) => x,
                    None => {
                        return None;
                    },
                },
                None => {
                    return None;
                },
            };
            let best_block_height = match obj_get(m, "best_block_height") {
                Some(f) => match as_u32(f) {
                    Some(x) => x,
                    None => {
                        return None;
                    },
                },
                None => {
                    return None;
                },
            };
            Some(TxIndex { synced, best_block_height })
        },
        _ => None,
    }
}

pub fn index_info_from_json(v: &JsonValue) -> (r: Option<IndexInfo>)
    ensures
        r == index_info_of(v@),
{
    match v {
        JsonValue::Obj(m) => {
            match obj_get(m, "txindex") {
                Some(f) => match tx_index_from_json(f) {
                    Some(txindex) => Some(IndexInfo { txindex }),
                    None => None,
                },
                None => None,
            }
        },
        _ => None,
    }
}

pub fn peer_info_from_json(v: &JsonValue) -> (r: Option<PeerInfo>)
    ensures
        match r {
            Some(p) => peer_info_of(v@) == Some(p@),
            None => peer_info_of(v@) is None,
        },
{
    match v {
        JsonValue::Obj(m) => {
            let id = match obj_get(m, "id") {
                Some(f) => match as_u32(f) {
                    Some(x) => x,
                    None => {
                        return None;
                    },
                },
                None => {
                    return None;
                },
            };
            let addr = match obj_get(m, "addr") {
                Some(f) => match as_string(f) {
                    Some(x) => x,
                    None => {
                        return None;
                    },
                },
                None => {
                    return None;
                },
            };
            let network = match obj_get(m, "network") {
                Some(f) => match as_string(f) {
                    Some(x) => x,
                    None => {
                        return None;
                    },
                },
                None => {
                    return None;
                },
            };
            Some(PeerInfo { id, addr, network })
        },
        _ => None,
    }
}

pub fn blockchain_info_from_json(v: &JsonValue) -> (r: Option<BlockchainInfo>)
    ensures
        match r {
            Some(t) => blockchain_info_of(v@) == Some(t@),
            None => blockchain_info_of(v@) is None,
        },
{
    match v {
        JsonValue::Obj(m) => {
            let chain = match obj_get(m, "chain") {
                Some(f) => match as_string(f) {
                    Some(x) => x,
                    None => {
                        return None;
                    },
                },
                None => {
                    return None;
                },
            };
            let blocks = match obj_get(m, "blocks") {
                Some(f) => match as_u64(f) {
                    Some(x) => x,
                    None => {
                        return None;
                    },
                },
                None => {
                    return None;
                },
            };
            let headers = match obj_get(m, "headers") {
                Some(f) => match as_u64(f) {
                    Some(x) => x,
                    None => {
                        return None;
                    },
                },
                None => {
                    return None;
                },
            };
            let best_block_hash = match obj_get(m, "bestblockhash") {
                Some(f) => match as_string(f) {
                    Some(x) => x,
                    None => {
                        return None;
                    },
                },
                None => {
                    return None;
                },
            };
            let difficulty = match obj_get(m, "difficulty") {
                Some(f) => match as_num_text(f) {
                    Some(x) => x,
                    None => {
                        return None;
                    },
                },
                None => {
                    return None;
                },
            };
            let median_time = match obj_get(m, "mediantime") {
                Some(f) => match as_u64(f) {
                    Some(x) => x,
                    None => {
                        return None;
                    },
                },
                None => {
                    return None;
                },
            };
            let initial_block_download = match obj_get(m, "initialblockdownload") {
                Some(f) => match as_bool(f) {
                    Some(x) => x,
                    None => {
                        return None;
                    },
                },
                None => {
                    return None;
                },
            };
            let size_on_disk = match obj_get(m, "size_on_disk") {
                Some(f) => match as_u64(f) {
                    Some(x) => x,
                    None => {
                        return None;
                    },
                },
                None => {
                    return None;
                },
            };
            let pruned = match obj_get(m, "pruned") {
                Some(f) => match as_bool(f) {
                    Some(x) => x,
                    None => {
                        return None;
                    },
                },
                None => {
                    return None;
                },
            };
            Some(
                BlockchainInfo {
                    chain,
                    blocks,
                    headers,
                    best_block_hash,
                    difficulty,
                    median_time,
                    initial_block_download,
                    size_on_disk,
                    pruned,
                },
            )
        },
        _ => None,
    }
}

pub fn mining_info_from_json(v: &JsonValue) -> (r: Option<MiningInfo>)
    ensures
        match r {
            Some(t) => mining_info_of(v@) == Some(t@),
            None => mining_info_of(v@) is None,
        },
{
    match v {
        JsonValue::Obj(m) => {
            let blocks = match obj_get(m, "blocks") {
                Some(f) => match as_u64(f) {
                    Some(x) => x,
                    None => {
                        return None;
                    },
                },
                None => {
                    return None;
                },
            };
            let difficulty = match obj_get(m, "difficulty") {
                Some(f) => match as_num_text(f) {
                    Some(x) => x,
                    None => {
                        return None;
                    },
                },
                None => {
                    return None;
                },
            };
            let network_hash_ps = match obj_get(m, "networkhashps") {
                Some(f) => match as_num_text(f) {
                    Some(x) => x,
                    None => {
                        return None;
                    },
                },
                None => {
                    return None;
                },
            };
            let pooled_tx = match obj_get(m, "pooledtx") {
                Some(f) => match as_u64(f) {
                    Some(x) => x,
                    None => {
                        return None;
                    },
                },
                None => {
                    return None;
                },
            };
            let chain = match obj_get(m, "chain") {
                Some(f) => match as_string(f) {
                    Some(x) => x,
                    None => {
                        return None;
                    },
                },
                None => {
                    return None;
                },
            };
            Some(MiningInfo { blocks, difficulty, network_hash_ps, pooled_tx, chain })
        },
        _ => None,
    }
}

pub fn tx_out_set_info_from_json(v: &JsonValue) -> (r: Option<TxOutSetInfo>)
    ensures
        match r {
            Some(t) => tx_out_set_info_of(v@) == Some(t@),
            None => tx_out_set_info_of(v@) is None,
        },
{
    match v {
        JsonValue::Obj(m) => {
            let height = match obj_get(m, "height") {
                Some(f) => match as_u64(f) {
                    Some(x) => x,
                    None => {
                        return None;
                    },
                },
                None => {
                    return None;
                },
            };
            let best_block = match obj_get(m, "bestblock") {
                Some(f) => match as_string(f) {
                    Some(x) => x,
                    None => {
                        return None;
                    },
                },
                None => {
                    return None;
                },
            };
            let tx_outs = match obj_get(m, "txouts") {
                Some(f) => match as_u64(f) {
                    Some(x) => x,
                    None => {
                        return None;
                    },
                },
                None => {
                    return None;
                },
            };
            let total_amount = match obj_get(m, "total_amount") {
                Some(f) => match as_num_text(f) {
                    Some(x) => x,
                    None => {
                        return None;
                    },
                },
                None => {
                    return None;
                },
            };
            Some(TxOutSetInfo { height, best_block, tx_outs, total_amount })
        },
        _ => None,
    }
}

pub fn txout_from_json(v: &JsonValue) -> (r: Option<TxOut>)
    ensures
        match r {
            Some(t) => txout_of(v@) == Some(t@),
            None => txout_of(v@) is None,
        },
{
    match v {
        JsonValue::Obj(m) => {
            let value = match obj_get(m, "value") {
                Some(f) => match as_num_text(f) {
                    Some(x) => x,
                    None => {
                        return None;
                    },
                },
                None => {
                    return None;
                },
            };
            let n: Option<u64> = match obj_get(m, "n") {
                Some(f) => match as_u64(f) {
                    Some(x) => Some(x),
                    None => {
                        return None;
                    },
                },
                None => None,
            };
            let address: Option<String> = match obj_get(m, "scriptPubKey") {
                Some(sp) => match sp {
                    JsonValue::Obj(sm) => match obj_get(sm, "address") {
                        Some(af) => match as_string(af) {
                            Some(a) => Some(a),
                            None => {
                                return None;
                            },
                        },
                        None => None,
                    },
                    _ => {
                        return None;
                    },
                },
                None => None,
            };
            Some(TxOut { value, n, address })
        },
        _ => None,
    }
}

pub fn txin_from_json(v: &JsonValue) -> (r: Option<TxIn>)
    ensures
        match r {
            Some(t) => txin_of(v@) == Some(t@),
            None => txin_of(v@) is None,
        },
{
    match v {
        JsonValue::Obj(m) => {
            let txid: Option<String> = match obj_get(m, "txid") {
                Some(f) => match as_string(f) {
                    Some(x) => Some(x),
                    None => {
                        return None;
                    },
                },
                None => None,
            };
            let vout: Option<u64> = match obj_get(m, "vout") {
                Some(f) => match as_u64(f) {
                    Some(x) => Some(x),
                    None => {
                        return None;
                    },
                },
                None => None,
            };
            Some(TxIn { txid, vout, prevout: None })
        },
        _ => None,
    }
}

fn txins_from(a: &Vec<JsonValue>, i: usize) -> (r: Option<Vec<TxIn>>)
    requires
        i <= a@.len(),
    ensures
        ({
            let ja = jv_view_seq(a@).subrange(i as int, a@.len() as int);
            match r {
                Some(v) => txins_of(ja) == Some(txin_views(v@)),
                None => txins_of(ja) is None,
            }
        }),
    decreases a@.len() - i,
{
    proof {
        crate::json::lemma_jv_view_seq_len(a@);
    }
    let ghost ja = jv_view_seq(a@).subrange(i as int, a@.len() as int);
    if i == a.len() {
        proof {
            assert(ja =~= Seq::<Json>::empty());
            assert(txin_views(Seq::<TxIn>::empty()) =~= Seq::<TxInV>::empty());
        }
        return Some(Vec::new());
    }
    proof {
        assert(ja[0] == jv_view_seq(a@)[i as int]);
        assert(ja.drop_first() =~= jv_view_seq(a@).subrange(i + 1 as int, a@.len() as int));
    }
    let x = match txin_from_json(&a[i]) {
        Some(x) => x,
        None => {
            return None;
        },
    };
    match txins_from(a, i + 1) {
        Some(mut rest) => {
            proof {
                let rv = rest@;
                assert(rv.insert(0, x) =~= seq![x] + rv);
                assert((seq![x] + rv).drop_first() =~= rv);
                assert(txin_views(seq![x] + rv) =~= seq![x@] + txin_views(rv));
            }
            rest.insert(0, x);
            Some(rest)
        },
        None => None,
    }
}

fn txouts_from(a: &Vec<JsonValue>, i: usize) -> (r: Option<Vec<TxOut>>)
    requires
        i <= a@.len(),
    ensures
        ({
            let ja = jv_view_seq(a@).subrange(i as int, a@.len() as int);
            match r {
                Some(v) => txouts_of(ja) == Some(txout_views(v@)),
                None => txouts_of(ja) is None,
            }
        }),
    decreases a@.len() - i,
{
    proof {
        crate::json::lemma_jv_view_seq_len(a@);
    }
    let ghost ja = jv_view_seq(a@).subrange(i as int, a@.len() as int);
    if i == a.len() {
        proof {
            assert(ja =~= Seq::<Json>::empty());
            assert(txout_views(Seq::<TxOut>::empty()) =~= Seq::<TxOutV>::empty());
        }
        return Some(Vec::new());
    }
    proof {
        assert(ja[0] == jv_view_seq(a@)[i as int]);
        assert(ja.drop_first() =~= jv_view_seq(a@).subrange(i + 1 as int, a@.len() as int));
    }
    let x = match txout_from_json(&a[i]) {
        Some(x) => x,
        None => {
            return None;
        },
    };
    match txouts_from(a, i + 1) {
        Some(mut rest) => {
            proof {
                let rv = rest@;
                assert(rv.insert(0, x) =~= seq![x] + rv);
                assert((seq![x] + rv).drop_first() =~= rv);
                assert(txout_views(seq![x] + rv) =~= seq![x@] + txout_views(rv));
            }
            rest.insert(0, x);
            Some(rest)
        },
        None => None,
    }
}

pub fn transaction_from_json(v: &JsonValue) -> (r: Option<Transaction>)
    ensures
        match r {
            Some(t) => transaction_of(v@) == Some(t@),
            None => transaction_of(v@) is None,
        },
{
    match v {
        JsonValue::Obj(m) => {
            let txid = match obj_get(m, "txid") {
                Some(f) => match as_string(f) {
                    Some(x) => x,
                    None => {
                        return None;
                    },
                },
                None => {
                    return None;
                },
            };
            let vin = match obj_get(m, "vin") {
                Some(f) => match f {
                    JsonValue::Arr(va) => {
                        proof {
                            crate::json::lemma_jv_view_seq_len(va@);
                            assert(jv_view_seq(va@).subrange(0, va@.len() as int) =~= jv_view_seq(
                                va@,
                            ));
                        }
                        match txins_from(va, 0) {
                            Some(x) => x,
                            None => {
                                return None;
                            },
                        }
                    },
                    _ => {
                        return None;
                    },
                },
                None => {
                    return None;
                },
            };
            let vout = match obj_get(m, "vout") {
                Some(f) => match f {
                    JsonValue::Arr(va) => {
                        proof {
                            crate::json::lemma_jv_view_seq_len(va@);
                            assert(jv_view_seq(va@).subrange(0, va@.len() as int) =~= jv_view_seq(
                                va@,
                            ));
                        }
                        match txouts_from(va, 0) {
                            Some(x) => x,
                            None => {
                                return None;
                            },
                        }
                    },
                    _ => {
                        return None;
                    },
                },
                None => {
                    return None;
                },
            };
            Some(Transaction { txid, vin, vout })
        },
        _ => None,
    }
}

fn txs_from(a: &Vec<JsonValue>, i: usize) -> (r: Option<Vec<Transaction>>)
    requires
        i <= a@.len(),
    ensures
        ({
            let ja = jv_view_seq(a@).subrange(i as int, a@.len() as int);
            match r {
                Some(v) => txs_of(ja) == Some(tx_views(v@)),
                None => txs_of(ja) is None,
            }
        }),
    decreases a@.len() - i,
{
    proof {
        crate::json::lemma_jv_view_seq_len(a@);
    }
    let ghost ja = jv_view_seq(a@).subrange(i as int, a@.len() as int);
    if i == a.len() {
        proof {
            assert(ja =~= Seq::<Json>::empty());
            assert(tx_views(Seq::<Transaction>::empty()) =~= Seq::<TransactionV>::empty());
        }
        return Some(Vec::new());
    }
    proof {
        assert(ja[0] == jv_view_seq(a@)[i as int]);
        assert(ja.drop_first() =~= jv_view_seq(a@).subrange(i + 1 as int, a@.len() as int));
    }
    let x = match transaction_from_json(&a[i]) {
        Some(x) => x,
        None => {
            return None;
        },
    };
    match txs_from(a, i + 1) {
        Some(mut rest) => {
            proof {
                let rv = rest@;
                assert(rv.insert(0, x) =~= seq![x] + rv);
                assert((seq![x] + rv).drop_first() =~= rv);
                assert(tx_views(seq![x] + rv) =~= seq![x@] + tx_views(rv));
            }
            rest.insert(0, x);
            Some(rest)
        },
        None => None,
    }
}

pub fn block_from_json(v: &JsonValue) -> (r: Option<Block>)
    ensures
        match r {
            Some(t) => block_of(v@) == Some(t@),
            None => block_of(v@) is None,
        },
{
    match v {
        JsonValue::Obj(m) => {
            let hash = match obj_get(m, "hash") {
                Some(f) => match as_string(f) {
                    Some(x) => x,
                    None => {
                        return None;
                    },
                },
                None => {
                    return None;
                },
            };
            let confirmations = match obj_get(m, "confirmations") {
                Some(f) => match as_u64(f) {
                    Some(x) => x,
                    None => {
                        return None;
                    },
                },
                None => {
                    return None;
                },
            };
            let size = match obj_get(m, "size") {
                Some(f) => match as_u64(f) {
                    Some(x) => x,
                    None => {
                        return None;
                    },
                },
                None => {
                    return None;
                },
            };
            let height = match obj_get(m, "height") {
                Some(f) => match as_u64(f) {
                    Some(x) => x,
                    None => {
                        return None;
                    },
                },
                None => {
                    return None;
                },
            };
            let version = match obj_get(m, "version") {
                Some(f) => match as_u64(f) {
                    Some(x) => x,
                    None => {
                        return None;
                    },
                },
                None => {
                    return None;
                },
            };
            let tx = match obj_get(m, "tx") {
                Some(f) => match f {
                    JsonValue::Arr(va) => {
                        proof {
                            crate::json::lemma_jv_view_seq_len(va@);
                            assert(jv_view_seq(va@).subrange(0, va@.len() as int) =~= jv_view_seq(
                                va@,
                            ));
                        }
                        match txs_from(va, 0) {
                            Some(x) => x,
                            None => {
                                return None;
                            },
                        }
                    },
                    _ => {
                        return None;
                    },
                },
                None => {
                    return None;
                },
            };
            Some(Block { hash, confirmations, size, height, version, tx })
        },
        _ => None,
    }
}

pub fn peers_from(a: &Vec<JsonValue>, i: usize) -> (r: Option<Vec<PeerInfo>>)
    requires
        i <= a@.len(),
    ensures
        ({
            let ja = jv_view_seq(a@).subrange(i as int, a@.len() as int);
            match r {
                Some(v) => peers_of(ja) == Some(peer_views(v@)),
                None => peers_of(ja) is None,
            }
        }),
    decreases a@.len() - i,
{
    proof {
        crate::json::lemma_jv_view_seq_len(a@);
    }
    let ghost ja = jv_view_seq(a@).subrange(i as int, a@.len() as int);
    if i == a.len() {
        proof {
            assert(ja =~= Seq::<Json>::empty());
            assert(peer_views(Seq::<PeerInfo>::empty()) =~= Seq::<PeerInfoV>::empty());
        }
        return Some(Vec::new());
    }
    proof {
        assert(ja[0] == jv_view_seq(a@)[i as int]);
        assert(ja.drop_first() =~= jv_view_seq(a@).subrange(i + 1 as int, a@.len() as int));
    }
    let x = match peer_info_from_json(&a[i]) {
        Some(x) => x,
        None => {
            return None;
        },
    };
    match peers_from(a, i + 1) {
        Some(mut rest) => {
            proof {
                let rv = rest@;
                assert(rv.insert(0, x) =~= seq![x] + rv);
                assert((seq![x] + rv).drop_first() =~= rv);
                assert(peer_views(seq![x] + rv) =~= seq![x@] + peer_views(rv));
            }
            rest.insert(0, x);
            Some(rest)
        },
        None => None,
    }
}

pub fn strings_from(a: &Vec<JsonValue>, i: usize) -> (r: Option<Vec<String>>)
    requires
        i <= a@.len(),
    ensures
        ({
            let ja = jv_view_seq(a@).subrange(i as int, a@.len() as int);
            match r {
                Some(v) => strings_of(ja) == Some(str_views(v@)),
                None => strings_of(ja) is None,
            }
        }),
    decreases a@.len() - i,
{
    proof {
        crate::json::lemma_jv_view_seq_len(a@);
    }
    let ghost ja = jv_view_seq(a@).subrange(i as int, a@.len() as int);
    if i == a.len() {
        proof {
            assert(ja =~= Seq::<Json>::empty());
            assert(str_views(Seq::<String>::empty()) =~= Seq::<Seq<char>>::empty());
        }
        return Some(Vec::new());
    }
    proof {
        assert(ja[0] == jv_view_seq(a@)[i as int]);
        assert(ja.drop_first() =~= jv_view_seq(a@).subrange(i + 1 as int, a@.len() as int));
    }
    let x = match as_string(&a[i]) {
        Some(x) => x,
        None => {
            return None;
        },
    };
    match strings_from(a, i + 1) {
        Some(mut rest) => {
            proof {
                let rv = rest@;
                assert(rv.insert(0, x) =~= seq![x] + rv);
                assert((seq![x] + rv).drop_first() =~= rv);
                assert(str_views(seq![x] + rv) =~= seq![x@] + str_views(rv));
            }
            rest.insert(0, x);
            Some(rest)
        },
        None => None,
    }
}

} // verus!
