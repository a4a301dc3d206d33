//! The client: request construction, the HTTP boundary, and the method
//! catalog.
//!
//! The client builds a JSON-RPC 2.0 body `{"jsonrpc":"2.0","method":...,
//! "params":[...]}`, hands it to an [`HttpPost`] implementation for the one
//! HTTP POST of the call, classifies the status code, and decodes the
//! response envelope into the typed result.

use vstd::prelude::*;

use crate::codec::{
    decode_block_result, decode_blockchain_info_result, decode_index_info_result,
    decode_mining_info_result, decode_network_info_result, decode_num_text_result,
    decode_peers_result, decode_string_result, decode_strings_result,
    decode_transaction_result, decode_tx_out_set_info_result, decode_u64_result,
};
use crate::error::{classify_response, http_error_of, Error};
use crate::num::dec_chars;
use crate::records::{
    Block, BlockchainInfo, IndexInfo, MiningInfo, NetworkInfo, PeerInfo, Transaction, TxIn,
    TxOut, TxOutSetInfo,
};
use crate::json::{jv_view, jv_view_members, jv_view_seq, ser, Json, JsonValue};
use crate::json::write_json;
use crate::text::chars_string;

verus! {

/// One HTTP response: the status code and the body text.
pub struct HttpReply {
    pub status: u16,
    pub body: String,
}

/// The one outward-facing operation: a single synchronous HTTP POST with
/// basic authentication and an optional whole-call timeout in seconds
/// (absent means no timeout). The embedding program implements it; a test
/// may implement it as a stub server. Nothing is assumed of it: every
/// outcome is handled.
pub trait HttpPost {
    fn post(
        &self,
        url: &str,
        username: &str,
        password: &str,
        timeout_secs: Option<u64>,
        body: &str,
    ) -> Result<HttpReply, String>;
}

/// The JSON-RPC 2.0 request body for a method and its positional params.
pub open spec fn request_body(method: Seq<char>, params: Seq<Json>) -> Seq<char> {
    ser(
        Json::Obj(
            seq![
                ("jsonrpc"@, Json::Str("2.0"@)),
                ("method"@, Json::Str(method)),
                ("params"@, Json::Arr(params)),
            ],
        ),
    )
}

/// Build the request body text: exactly `request_body` of the inputs.
pub fn build_request(method: &str, params: Vec<JsonValue>) -> (r: String)
    ensures
        r@ == request_body(method@, jv_view_seq(params@)),
{
    let mut members: Vec<(String, JsonValue)> = Vec::new();
    members.push((String::from_str("jsonrpc"), JsonValue::Str(String::from_str("2.0"))));
    members.push((String::from_str("method"), JsonValue::Str(String::from_str(method))));
    members.push((String::from_str("params"), JsonValue::Arr(params)));
    let v = JsonValue::Obj(members);
    proof {
        let ms = members@;
        assert(ms.len() == 3);
        let t1 = ms.drop_first();
        let t2 = t1.drop_first();
        assert(t1[0] == ms[1] && t1[1] == ms[2] && t2[0] == ms[2]);
        assert(t2.drop_first() =~= Seq::<(String, JsonValue)>::empty());
        assert(t2.len() == 1);
        assert(jv_view_members(t2) == seq![(t2[0].0@, jv_view(t2[0].1))] + jv_view_members(
            t2.drop_first(),
        ));
        assert(jv_view_members(t2.drop_first()) =~= Seq::<(Seq<char>, Json)>::empty());
        assert(jv_view_members(t2) =~= seq![(ms[2].0@, jv_view(ms[2].1))]);
        assert(jv_view_members(t1) =~= seq![
            (ms[1].0@, jv_view(ms[1].1)),
            (ms[2].0@, jv_view(ms[2].1)),
        ]);
        assert(jv_view_members(ms) =~= seq![
            (ms[0].0@, jv_view(ms[0].1)),
            (ms[1].0@, jv_view(ms[1].1)),
            (ms[2].0@, jv_view(ms[2].1)),
        ]);
        assert(ms[0].0@ == "jsonrpc"@ && ms[1].0@ == "method"@ && ms[2].0@ == "params"@);
        assert(jv_view(ms[0].1) == Json::Str("2.0"@));
        assert(jv_view(ms[1].1) == Json::Str(method@));
        assert(jv_view(ms[2].1) == Json::Arr(jv_view_seq(params@)));
        assert(jv_view_members(ms) =~= seq![
            ("jsonrpc"@, Json::Str("2.0"@)),
            ("method"@, Json::Str(method@)),
            ("params"@, Json::Arr(jv_view_seq(params@))),
        ]);
    }
    let mut out: Vec<char> = Vec::new();
    write_json(&mut out, &v);
    assert(out@ =~= request_body(method@, jv_view_seq(params@)));
    chars_string(&out)
}

/// The client: endpoint and credentials, immutable after construction.
#[derive(Clone)]
pub struct Client {
    pub host: String,
    pub username: String,
    pub password: String,
}

impl Client {
    pub fn new(host: &str, username: &str, password: &str) -> (c: Self)
        ensures
            c.host@ == host@,
            c.username@ == username@,
            c.password@ == password@,
    {
        Client {
            host: String::from_str(host),
            username: String::from_str(username),
            password: String::from_str(password),
        }
    }

    /// One JSON-RPC exchange: build the body, POST it, classify the status.
    /// On success the raw body text comes back unparsed; a failure is a
    /// transport error or the mapped HTTP error, never a decode error.
    fn call_jsonrpc<H: HttpPost>(
        &self,
        http: &H,
        method: &str,
        params: Vec<JsonValue>,
        timeout_secs: Option<u64>,
    ) -> (r: Result<String, Error>)
        ensures
            r matches Err(e) ==> e matches Error::Transport(_) || (exists|st: u16|
                st > 399 && e == http_error_of(st)),
    {
        let body = build_request(method, params);
        match http.post(
            self.host.as_str(),
            self.username.as_str(),
            self.password.as_str(),
            timeout_secs,
            body.as_str(),
        ) {
            Ok(reply) => {
                let st = reply.status;
                let r = classify_response(st, reply.body);
                proof {
                    if st > 399 {
                        assert(st > 399 && http_error_of(st) == http_error_of(st));
                    }
                }
                r
            },
            Err(cause) => Err(Error::Transport(cause)),
        }
    }

    // ------------------------------------------------------------------
    // The method catalog: one typed call per supported RPC method.
    // Metadata calls use the transport default (no timeout); block,
    // mempool and raw-transaction retrieval allow 120 seconds; the
    // UTXO-set-wide scan allows 1800 seconds.
    // ------------------------------------------------------------------

    /// `getblockchaininfo`, no params, no timeout.
    pub fn get_blockchain_info<H: HttpPost>(&self, http: &H) -> Result<BlockchainInfo, Error> {
        let raw = match self.call_jsonrpc(http, "getblockchaininfo", Vec::new(), None) {
            Ok(raw) => raw,
            Err(e) => {
                return Err(e);
            },
        };
        decode_blockchain_info_result(raw.as_str())
    }

    /// `getnetworkinfo`, no params, no timeout.
    pub fn get_network_info<H: HttpPost>(&self, http: &H) -> Result<NetworkInfo, Error> {
        let raw = match self.call_jsonrpc(http, "getnetworkinfo", Vec::new(), None) {
            Ok(raw) => raw,
            Err(e) => {
                return Err(e);
            },
        };
        decode_network_info_result(raw.as_str())
    }

    /// `getmininginfo`, no params, no timeout.
    pub fn get_mining_info<H: HttpPost>(&self, http: &H) -> Result<MiningInfo, Error> {
        let raw = match self.call_jsonrpc(http, "getmininginfo", Vec::new(), None) {
            Ok(raw) => raw,
            Err(e) => {
                return Err(e);
            },
        };
        decode_mining_info_result(raw.as_str())
    }

    /// `getpeerinfo`, no params, no timeout.
    pub fn get_peer_info<H: HttpPost>(&self, http: &H) -> Result<Vec<PeerInfo>, Error> {
        let raw = match self.call_jsonrpc(http, "getpeerinfo", Vec::new(), None) {
            Ok(raw) => raw,
            Err(e) => {
                return Err(e);
            },
        };
        decode_peers_result(raw.as_str())
    }

    /// `getindexinfo`, no params, no timeout.
    pub fn get_index_info<H: HttpPost>(&self, http: &H) -> Result<IndexInfo, Error> {
        let raw = match self.call_jsonrpc(http, "getindexinfo", Vec::new(), None) {
            Ok(raw) => raw,
            Err(e) => {
                return Err(e);
            },
        };
        decode_index_info_result(raw.as_str())
    }

    /// `getblockcount`, no params, no timeout.
    pub fn get_block_count<H: HttpPost>(&self, http: &H) -> Result<u64, Error> {
        let raw = match self.call_jsonrpc(http, "getblockcount", Vec::new(), None) {
            Ok(raw) => raw,
            Err(e) => {
                return Err(e);
            },
        };
        decode_u64_result(raw.as_str())
    }

    /// `getblockhash height`, no timeout. The height travels as a JSON
    /// number; the hash comes back as a hex string.
    pub fn get_block_hash<H: HttpPost>(&self, http: &H, block_height: u64) -> Result<
        String,
        Error,
    > {
        let digits = dec_chars(block_height);
        let mut params: Vec<JsonValue> = Vec::new();
        params.push(JsonValue::Num(chars_string(&digits)));
        let raw = match self.call_jsonrpc(http, "getblockhash", params, None) {
            Ok(raw) => raw,
            Err(e) => {
                return Err(e);
            },
        };
        decode_string_result(raw.as_str())
    }

    /// `getblock hash 2`, 120 s: the fully decoded block.
    pub fn get_block<H: HttpPost>(&self, http: &H, block_hash: &str) -> Result<Block, Error> {
        let mut params: Vec<JsonValue> = Vec::new();
        params.push(JsonValue::Str(String::from_str(block_hash)));
        params.push(JsonValue::Num(String::from_str("2")));
        let raw = match self.call_jsonrpc(http, "getblock", params, Some(120)) {
            Ok(raw) => raw,
            Err(e) => {
                return Err(e);
            },
        };
        decode_block_result(raw.as_str())
    }

    /// `getblock hash 0`, 120 s: the block as raw hex text.
    pub fn get_block_hex<H: HttpPost>(&self, http: &H, block_hash: &str) -> Result<
        String,
        Error,
    > {
        let mut params: Vec<JsonValue> = Vec::new();
        params.push(JsonValue::Str(String::from_str(block_hash)));
        params.push(JsonValue::Num(String::from_str("0")));
        let raw = match self.call_jsonrpc(http, "getblock", params, Some(120)) {
            Ok(raw) => raw,
            Err(e) => {
                return Err(e);
            },
        };
        decode_string_result(raw.as_str())
    }

    /// `getrawmempool`, no params, 120 s: the pending transaction ids.
    pub fn get_raw_mempool<H: HttpPost>(&self, http: &H) -> Result<Vec<String>, Error> {
        let raw = match self.call_jsonrpc(http, "getrawmempool", Vec::new(), Some(120)) {
            Ok(raw) => raw,
            Err(e) => {
                return Err(e);
            },
        };
        decode_strings_result(raw.as_str())
    }

    /// `getrawtransaction txid true`, 120 s: the decoded transaction.
    pub fn get_raw_transaction<H: HttpPost>(&self, http: &H, txid: &str) -> Result<
        Transaction,
        Error,
    > {
        let mut params: Vec<JsonValue> = Vec::new();
        params.push(JsonValue::Str(String::from_str(txid)));
        params.push(JsonValue::Bool(true));
        let raw = match self.call_jsonrpc(http, "getrawtransaction", params, Some(120)) {
            Ok(raw) => raw,
            Err(e) => {
                return Err(e);
            },
        };
        decode_transaction_result(raw.as_str())
    }

    /// `getdifficulty`, no params, no timeout. The node reports a
    /// fractional number; its literal text is returned.
    pub fn get_difficulty<H: HttpPost>(&self, http: &H) -> Result<String, Error> {
        let raw = match self.call_jsonrpc(http, "getdifficulty", Vec::new(), None) {
            Ok(raw) => raw,
            Err(e) => {
                return Err(e);
            },
        };
        decode_num_text_result(raw.as_str())
    }

    /// `gettxoutsetinfo`, no params, 1800 s.
    pub fn get_tx_out_set_info<H: HttpPost>(&self, http: &H) -> Result<TxOutSetInfo, Error> {
        let raw = match self.call_jsonrpc(http, "gettxoutsetinfo", Vec::new(), Some(1800)) {
            Ok(raw) => raw,
            Err(e) => {
                return Err(e);
            },
        };
        decode_tx_out_set_info_result(raw.as_str())
    }

    /// Enrichment: resolve each input's previous output, in input order.
    /// An input that already carries a previous output, or that lacks a
    /// previous-tx id or index (a coinbase input), is left as it stands
    /// and costs no call. A failed lookup, or one whose transaction has
    /// no output with the referenced index, leaves that one input
    /// unresolved; the whole operation always succeeds.
    pub fn resolve_prevouts<H: HttpPost>(&self, http: &H, tx: Transaction) -> (r: Transaction)
        ensures
            r.txid == tx.txid,
            r.vout == tx.vout,
            r.vin@.len() == tx.vin@.len(),
            forall|i: int|
                0 <= i < tx.vin@.len() ==> {
                    let a = #[trigger] r.vin@[i];
                    let b = tx.vin@[i];
                    a.txid == b.txid && a.vout == b.vout && (b.prevout is Some ==> a.prevout
                        == b.prevout) && ((b.txid is None || b.vout is None) ==> a.prevout
                        == b.prevout) && (a.prevout is Some && b.prevout is None
                        ==> b.vout is Some && a.prevout->0.n == Some(b.vout->0))
                },
    {
        let vin = tx.vin;
        let mut out_vin: Vec<TxIn> = Vec::new();
        let mut i: usize = 0;
        while i < vin.len()
            invariant
                0 <= i <= vin@.len(),
                out_vin@.len() == i,
                forall|k: int|
                    0 <= k < i ==> {
                        let a = #[trigger] out_vin@[k];
                        let b = vin@[k];
                        a.txid == b.txid && a.vout == b.vout && (b.prevout is Some ==> a.prevout
                            == b.prevout) && ((b.txid is None || b.vout is None) ==> a.prevout
                            == b.prevout) && (a.prevout is Some && b.prevout is None
                            ==> b.vout is Some && a.prevout->0.n == Some(b.vout->0))
                    },
            decreases vin@.len() - i,
        {
            let entry = &vin[i];
            let txid = clone_opt_string(&entry.txid);
            let vout = entry.vout;
            let prevout: Option<TxOut> = match &entry.prevout {
                Some(p) => Some(clone_txout(p)),
                None => {
                    match (&txid, vout) {
                        (Some(ptxid), Some(idx)) => {
                            match self.get_raw_transaction(http, ptxid.as_str()) {
                                Ok(prev) => find_output_by_index(&prev, idx),
                                Err(_) => None,
                            }
                        },
                        _ => None,
                    }
                },
            };
            out_vin.push(TxIn { txid, vout, prevout });
            i = i + 1;
        }
        Transaction { txid: tx.txid, vin: out_vin, vout: tx.vout }
    }
}

/// A faithful copy of an optional string.
fn clone_opt_string(o: &Option<String>) -> (r: Option<String>)
    ensures
        r == *o,
{
    match o {
        Some(t) => Some(t.clone()),
        None => None,
    }
}

/// A faithful copy of an output.
fn clone_txout(o: &TxOut) -> (r: TxOut)
    ensures
        r == *o,
{
    TxOut { value: o.value.clone(), n: o.n, address: clone_opt_string(&o.address) }
}

/// The first output whose index field equals `idx`, copied out; nothing
/// when no output carries that index.
pub fn find_output_by_index(prev: &Transaction, idx: u64) -> (r: Option<TxOut>)
    ensures
        match r {
            Some(o) => o.n == Some(idx) && (exists|k: int|
                0 <= k < prev.vout@.len() && prev.vout@[k] == o),
            None => forall|k: int|
                0 <= k < prev.vout@.len() ==> (#[trigger] prev.vout@[k]).n != Some(idx),
        },
{
    let mut k: usize = 0;
    while k < prev.vout.len()
        invariant
            0 <= k <= prev.vout@.len(),
            forall|t: int| 0 <= t < k ==> (#[trigger] prev.vout@[t]).n != Some(idx),
        decreases prev.vout@.len() - k,
    {
        let o = &prev.vout[k];
        let hit = match o.n {
            Some(n) => n == idx,
            None => false,
        };
        if hit {
            let c = clone_txout(o);
            return Some(c);
        }
        k = k + 1;
    }
    None
}

} // verus!
