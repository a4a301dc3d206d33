//! Enrichment against stub lookups: a resolvable input gains its previous
//! output, a coinbase input costs no call, a failed lookup degrades only
//! that input.

use std::cell::RefCell;

use bitcoin_rpc::client::{Client, HttpPost, HttpReply};
use bitcoin_rpc::records::{Transaction, TxIn, TxOut};

/// A stub that knows one previous transaction and counts lookups.
struct PrevTxStub {
    calls: RefCell<u32>,
    status: u16,
}

const PREV_TX_BODY: &str = "{\"result\": {\"txid\": \"prev\",\
    \"vin\": [{\"coinbase\": \"00\"}],\
    \"vout\": [\
      {\"value\": 0.1, \"n\": 0, \"scriptPubKey\": {\"address\": \"addr0\"}},\
      {\"value\": 0.2, \"n\": 1, \"scriptPubKey\": {\"address\": \"addr1\"}}]}}";

impl HttpPost for PrevTxStub {
    fn post(
        &self,
        _url: &str,
        _username: &str,
        _password: &str,
        _timeout_secs: Option<u64>,
        _body: &str,
    ) -> Result<HttpReply, String> {
        *self.calls.borrow_mut() += 1;
        Ok(HttpReply { status: self.status, body: String::from(PREV_TX_BODY) })
    }
}

fn client() -> Client {
    Client::new("http://127.0.0.1:8332", "user", "pass")
}

fn input(txid: Option<&str>, vout: Option<u64>) -> TxIn {
    TxIn { txid: txid.map(String::from), vout, prevout: None }
}

#[test]
fn resolvable_input_gains_its_previous_output() {
    let stub = PrevTxStub { calls: RefCell::new(0), status: 200 };
    let tx = Transaction {
        txid: String::from("spender"),
        vin: vec![input(Some("prev"), Some(1))],
        vout: Vec::new(),
    };
    let out = client().resolve_prevouts(&stub, tx);
    assert_eq!(out.txid, "spender");
    assert_eq!(out.vin.len(), 1);
    assert_eq!(
        out.vin[0].prevout,
        Some(TxOut {
            value: String::from("0.2"),
            n: Some(1),
            address: Some(String::from("addr1")),
        })
    );
    assert_eq!(*stub.calls.borrow(), 1);
}

#[test]
fn coinbase_input_stays_absent_and_costs_no_call() {
    let stub = PrevTxStub { calls: RefCell::new(0), status: 200 };
    let tx = Transaction {
        txid: String::from("cb"),
        vin: vec![input(None, None), input(None, Some(0)), input(Some("prev"), None)],
        vout: Vec::new(),
    };
    let out = client().resolve_prevouts(&stub, tx);
    assert_eq!(out.vin.len(), 3);
    assert!(out.vin.iter().all(|i| i.prevout.is_none()));
    assert_eq!(*stub.calls.borrow(), 0);
}

#[test]
fn failed_lookup_leaves_the_input_unresolved_and_succeeds() {
    let stub = PrevTxStub { calls: RefCell::new(0), status: 404 };
    let tx = Transaction {
        txid: String::from("spender"),
        vin: vec![input(Some("prev"), Some(1)), input(None, None)],
        vout: Vec::new(),
    };
    let out = client().resolve_prevouts(&stub, tx);
    assert_eq!(out.vin.len(), 2);
    assert_eq!(out.vin[0].prevout, None);
    assert_eq!(out.vin[0].txid, Some(String::from("prev")));
    assert_eq!(out.vin[0].vout, Some(1));
    assert_eq!(out.vin[1].prevout, None);
    assert_eq!(*stub.calls.borrow(), 1);
}

#[test]
fn unmatched_index_leaves_the_input_unresolved() {
    let stub = PrevTxStub { calls: RefCell::new(0), status: 200 };
    let tx = Transaction {
        txid: String::from("spender"),
        vin: vec![input(Some("prev"), Some(7))],
        vout: Vec::new(),
    };
    let out = client().resolve_prevouts(&stub, tx);
    assert_eq!(out.vin[0].prevout, None);
    assert_eq!(*stub.calls.borrow(), 1);
}

#[test]
fn outputs_and_order_are_kept() {
    let stub = PrevTxStub { calls: RefCell::new(0), status: 200 };
    let keep = TxOut { value: String::from("9"), n: Some(0), address: None };
    let tx = Transaction {
        txid: String::from("spender"),
        vin: vec![input(None, None), input(Some("prev"), Some(0))],
        vout: vec![keep.clone()],
    };
    let out = client().resolve_prevouts(&stub, tx);
    assert_eq!(out.vout, vec![keep]);
    assert_eq!(out.vin[0].prevout, None);
    assert_eq!(
        out.vin[1].prevout,
        Some(TxOut {
            value: String::from("0.1"),
            n: Some(0),
            address: Some(String::from("addr0")),
        })
    );
}
