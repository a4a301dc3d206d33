//! The method catalog end to end against stub servers, and the remaining
//! record decoders.

use std::cell::RefCell;

use bitcoin_rpc::client::{Client, HttpPost, HttpReply};
use bitcoin_rpc::codec::{
    decode_block_result, decode_index_info_result, decode_mining_info_result,
    decode_tx_out_set_info_result,
};
use bitcoin_rpc::records::{IndexInfo, Transaction, TxIn, TxIndex};

struct FixedReply {
    body: &'static str,
}

impl HttpPost for FixedReply {
    fn post(
        &self,
        _url: &str,
        _username: &str,
        _password: &str,
        _timeout_secs: Option<u64>,
        _body: &str,
    ) -> Result<HttpReply, String> {
        Ok(HttpReply { status: 200, body: String::from(self.body) })
    }
}

fn client() -> Client {
    Client::new("http://127.0.0.1:8332", "user", "pass")
}

#[test]
fn index_info_decodes_nested_record() {
    let r = decode_index_info_result(
        "{\"result\": {\"txindex\": {\"synced\": true, \"best_block_height\": 812345}}}",
    );
    assert_eq!(
        r,
        Ok(IndexInfo { txindex: TxIndex { synced: true, best_block_height: 812345 } })
    );
}

#[test]
fn mining_info_keeps_number_texts() {
    let text = "{\"result\": {\"blocks\": 800001, \"difficulty\": 5.3e13,\
        \"networkhashps\": 4.9e20, \"pooledtx\": 3021, \"chain\": \"main\"}}";
    let r = decode_mining_info_result(text).unwrap();
    assert_eq!(r.blocks, 800001);
    assert_eq!(r.difficulty, "5.3e13");
    assert_eq!(r.network_hash_ps, "4.9e20");
    assert_eq!(r.pooled_tx, 3021);
    assert_eq!(r.chain, "main");
}

#[test]
fn tx_out_set_info_decodes_wire_names() {
    let text = "{\"result\": {\"height\": 800000, \"bestblock\": \"00bb\",\
        \"txouts\": 112233, \"total_amount\": 19500000.123}}";
    let r = decode_tx_out_set_info_result(text).unwrap();
    assert_eq!(r.height, 800000);
    assert_eq!(r.best_block, "00bb");
    assert_eq!(r.tx_outs, 112233);
    assert_eq!(r.total_amount, "19500000.123");
}

#[test]
fn block_decodes_transactions_in_order() {
    let text = "{\"result\": {\"hash\": \"00cc\", \"confirmations\": 3, \"size\": 1234,\
        \"height\": 700000, \"version\": 536870912, \"tx\": [\
          {\"txid\": \"t1\", \"vin\": [{\"coinbase\": \"00\"}], \"vout\": []},\
          {\"txid\": \"t2\", \"vin\": [{\"txid\": \"t1\", \"vout\": 0}], \"vout\": []}]}}";
    let b = decode_block_result(text).unwrap();
    assert_eq!(b.hash, "00cc");
    assert_eq!(b.confirmations, 3);
    assert_eq!(b.size, 1234);
    assert_eq!(b.height, 700000);
    assert_eq!(b.version, 536870912);
    assert_eq!(b.tx.len(), 2);
    assert_eq!(b.tx[0].txid, "t1");
    assert_eq!(b.tx[1].txid, "t2");
    assert_eq!(b.tx[1].vin[0].txid, Some(String::from("t1")));
}

#[test]
fn peer_list_and_mempool_through_the_client() {
    let peers = FixedReply {
        body: "{\"result\": [{\"id\": 9, \"addr\": \"h:1\", \"network\": \"onion\"}]}",
    };
    let r = client().get_peer_info(&peers).unwrap();
    assert_eq!(r.len(), 1);
    assert_eq!(r[0].id, 9);
    assert_eq!(r[0].network, "onion");

    let mempool = FixedReply { body: "{\"result\": [\"x1\", \"x2\"]}" };
    let ids = client().get_raw_mempool(&mempool).unwrap();
    assert_eq!(ids, vec![String::from("x1"), String::from("x2")]);
}

#[test]
fn block_retrieval_through_the_client() {
    let stub = FixedReply {
        body: "{\"result\": {\"hash\": \"00dd\", \"confirmations\": 1, \"size\": 285,\
            \"height\": 0, \"version\": 1, \"tx\": []}}",
    };
    let b = client().get_block(&stub, "00dd").unwrap();
    assert_eq!(b.hash, "00dd");
    assert_eq!(b.height, 0);
    assert!(b.tx.is_empty());
}

/// Counts the lookups to show they happen once per resolvable input, in
/// order, with no deduplication of a repeated previous-tx id.
struct CountingStub {
    calls: RefCell<u32>,
}

impl HttpPost for CountingStub {
    fn post(
        &self,
        _url: &str,
        _username: &str,
        _password: &str,
        _timeout_secs: Option<u64>,
        _body: &str,
    ) -> Result<HttpReply, String> {
        *self.calls.borrow_mut() += 1;
        Ok(HttpReply {
            status: 200,
            body: String::from(
                "{\"result\": {\"txid\": \"p\", \"vin\": [], \"vout\": [\
                 {\"value\": 1, \"n\": 0, \"scriptPubKey\": {}}]}}",
            ),
        })
    }
}

#[test]
fn repeated_previous_ids_are_looked_up_each_time() {
    let stub = CountingStub { calls: RefCell::new(0) };
    let tx = Transaction {
        txid: String::from("s"),
        vin: vec![
            TxIn { txid: Some(String::from("p")), vout: Some(0), prevout: None },
            TxIn { txid: Some(String::from("p")), vout: Some(0), prevout: None },
        ],
        vout: Vec::new(),
    };
    let out = client().resolve_prevouts(&stub, tx);
    assert_eq!(*stub.calls.borrow(), 2);
    assert!(out.vin[0].prevout.is_some());
    assert!(out.vin[1].prevout.is_some());
    assert_eq!(out.vin[0].prevout.as_ref().unwrap().value, "1");
    assert_eq!(out.vin[0].prevout.as_ref().unwrap().n, Some(0));
    assert_eq!(out.vin[0].prevout.as_ref().unwrap().address, None);
}
