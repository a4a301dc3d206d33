//! Transport behaviour against stub servers: status classification and the
//! request body on the wire.

use std::cell::RefCell;

use bitcoin_rpc::client::{Client, HttpPost, HttpReply};
use bitcoin_rpc::error::Error;

/// A stub server: answers every POST with a fixed status and body.
struct FixedReply {
    status: u16,
    body: &'static str,
}

impl HttpPost for FixedReply {
    fn post(
        &self,
        _url: &str,
        _username: &str,
        _password: &str,
        _timeout_secs: Option<u64>,
        _body: &str,
    ) -> Result<HttpReply, String> {
        Ok(HttpReply { status: self.status, body: String::from(self.body) })
    }
}

/// A stub that records what was posted, then answers with a fixed body.
struct Recorder {
    seen: RefCell<Vec<(String, String, String, Option<u64>, String)>>,
    body: &'static str,
}

impl HttpPost for Recorder {
    fn post(
        &self,
        url: &str,
        username: &str,
        password: &str,
        timeout_secs: Option<u64>,
        body: &str,
    ) -> Result<HttpReply, String> {
        self.seen.borrow_mut().push((
            String::from(url),
            String::from(username),
            String::from(password),
            timeout_secs,
            String::from(body),
        ));
        Ok(HttpReply { status: 200, body: String::from(self.body) })
    }
}

/// A stub whose connection always fails.
struct Unreachable;

impl HttpPost for Unreachable {
    fn post(
        &self,
        _url: &str,
        _username: &str,
        _password: &str,
        _timeout_secs: Option<u64>,
        _body: &str,
    ) -> Result<HttpReply, String> {
        Err(String::from("connection refused"))
    }
}

fn client() -> Client {
    Client::new("http://127.0.0.1:8332", "user", "pass")
}

#[test]
fn success_statuses_hand_the_body_through() {
    for status in [0u16, 1, 100, 200, 204, 301, 399] {
        let stub = FixedReply { status, body: "{\"result\": 7}" };
        let r = client().get_block_count(&stub);
        assert_eq!(r, Ok(7), "status {}", status);
    }
}

#[test]
fn fixed_status_table_maps_one_to_one() {
    let table: [(u16, Error); 11] = [
        (400, Error::BadRequest),
        (401, Error::Unauthorized),
        (403, Error::Forbidden),
        (404, Error::NotFound),
        (405, Error::MethodNotAllowed),
        (429, Error::TooManyRequests),
        (500, Error::InternalServerError),
        (501, Error::NotImplemented),
        (502, Error::BadGateway),
        (503, Error::ServiceUnavailable),
        (504, Error::GatewayTimeout),
    ];
    for (status, expected) in table {
        let stub = FixedReply { status, body: "" };
        let r = client().get_block_count(&stub);
        assert_eq!(r, Err(expected), "status {}", status);
    }
}

#[test]
fn other_client_statuses_map_to_the_generic_kinds() {
    for status in [402u16, 406, 418, 428, 430, 499] {
        let stub = FixedReply { status, body: "" };
        let r = client().get_block_count(&stub);
        assert_eq!(r, Err(Error::UnhandledClientError), "status {}", status);
    }
    for status in [505u16, 511, 600, 1000, u16::MAX] {
        let stub = FixedReply { status, body: "" };
        let r = client().get_block_count(&stub);
        assert_eq!(r, Err(Error::UnhandledServerError), "status {}", status);
    }
}

#[test]
fn transport_failure_carries_the_cause() {
    let r = client().get_block_count(&Unreachable);
    assert_eq!(r, Err(Error::Transport(String::from("connection refused"))));
}

#[test]
fn block_count_scenario_returns_the_integer() {
    let stub = FixedReply { status: 200, body: "{\"result\": 800000}" };
    let r = client().get_block_count(&stub);
    assert_eq!(r, Ok(800000));
}

#[test]
fn block_hex_scenario_returns_the_literal_text() {
    let stub = FixedReply { status: 200, body: "{\"result\":\"00a0b1c2d3\"}" };
    let r = client().get_block_hex(&stub, "deadbeef");
    assert_eq!(r, Ok(String::from("00a0b1c2d3")));
}

#[test]
fn the_request_body_is_a_jsonrpc_two_envelope() {
    let stub = Recorder { seen: RefCell::new(Vec::new()), body: "{\"result\": 1}" };
    let r = client().get_block_count(&stub);
    assert_eq!(r, Ok(1));
    let seen = stub.seen.borrow();
    assert_eq!(seen.len(), 1);
    let (url, user, pass, timeout, body) = &seen[0];
    assert_eq!(url, "http://127.0.0.1:8332");
    assert_eq!(user, "user");
    assert_eq!(pass, "pass");
    assert_eq!(*timeout, None);
    assert_eq!(body, "{\"jsonrpc\":\"2.0\",\"method\":\"getblockcount\",\"params\":[]}");
}

#[test]
fn positional_params_and_timeouts_follow_the_catalog() {
    let stub = Recorder { seen: RefCell::new(Vec::new()), body: "{\"result\":\"aa\"}" };
    let r = client().get_block_hash(&stub, 123456);
    assert_eq!(r, Ok(String::from("aa")));
    {
        let seen = stub.seen.borrow();
        let (_, _, _, timeout, body) = &seen[0];
        assert_eq!(*timeout, None);
        assert_eq!(
            body,
            "{\"jsonrpc\":\"2.0\",\"method\":\"getblockhash\",\"params\":[123456]}"
        );
    }

    let stub2 = Recorder { seen: RefCell::new(Vec::new()), body: "{\"result\":\"bb\"}" };
    let r2 = client().get_block_hex(&stub2, "00ff");
    assert_eq!(r2, Ok(String::from("bb")));
    {
        let seen = stub2.seen.borrow();
        let (_, _, _, timeout, body) = &seen[0];
        assert_eq!(*timeout, Some(120));
        assert_eq!(
            body,
            "{\"jsonrpc\":\"2.0\",\"method\":\"getblock\",\"params\":[\"00ff\",0]}"
        );
    }
}
