//! Envelope decoding: the round trip on well-formed envelopes, the two
//! failure shapes, and the typed payload readings.

use bitcoin_rpc::client::{Client, HttpPost, HttpReply};
use bitcoin_rpc::codec::{
    decode_blockchain_info_result, decode_envelope, decode_network_info_result,
    decode_num_text_result, decode_peers_result, decode_string_result, decode_strings_result,
    decode_transaction_result, decode_u64_result,
};
use bitcoin_rpc::error::Error;
use bitcoin_rpc::json::{write_json, JsonValue};
use bitcoin_rpc::records::{NetworkInfo, PeerInfo};

fn is_deserialize_failure(r: &Error) -> bool {
    matches!(r, Error::FailedToDeserialize(_))
}

#[test]
fn malformed_text_yields_deserialize_failure() {
    for text in [
        "",
        "not json at all",
        "{",
        "{\"result\": }",
        "[1, 2",
        "{\"result\": 01}",
        "{\"result\": nulL}",
        "{\"result\": \"unterminated",
        "\u{0007}",
        "{\"result\": 1} trailing",
    ] {
        let r = decode_envelope(text);
        match r {
            Err(e) => assert!(is_deserialize_failure(&e), "text {:?} gave {:?}", text, e),
            Ok(v) => panic!("text {:?} decoded to {:?}", text, v),
        }
    }
}

#[test]
fn valid_json_that_is_no_object_yields_deserialize_failure() {
    for text in ["[1,2,3]", "\"hello\"", "42", "true", "null"] {
        let r = decode_envelope(text);
        match r {
            Err(e) => assert!(is_deserialize_failure(&e), "text {:?} gave {:?}", text, e),
            Ok(v) => panic!("text {:?} decoded to {:?}", text, v),
        }
    }
}

#[test]
fn null_or_missing_result_yields_bad_result() {
    assert_eq!(decode_u64_result("{\"result\": null}"), Err(Error::BadResult));
    assert_eq!(decode_u64_result("{}"), Err(Error::BadResult));
    assert_eq!(decode_u64_result("{\"error\": \"boom\"}"), Err(Error::BadResult));
}

#[test]
fn envelope_round_trip_for_scalars() {
    // Write an envelope with the library's own writer, then decode it.
    let mut out: Vec<char> = Vec::new();
    let envelope = JsonValue::Obj(vec![(
        String::from("result"),
        JsonValue::Num(String::from("18446744073709551615")),
    )]);
    write_json(&mut out, &envelope);
    let text: String = out.iter().collect();
    assert_eq!(text, "{\"result\":18446744073709551615}");
    assert_eq!(decode_u64_result(&text), Ok(u64::MAX));

    let mut out2: Vec<char> = Vec::new();
    let envelope2 = JsonValue::Obj(vec![(
        String::from("result"),
        JsonValue::Str(String::from("line1\nline2 \"quoted\" \\slash")),
    )]);
    write_json(&mut out2, &envelope2);
    let text2: String = out2.iter().collect();
    assert_eq!(
        decode_string_result(&text2),
        Ok(String::from("line1\nline2 \"quoted\" \\slash"))
    );
}

#[test]
fn number_payload_that_overflows_is_a_shape_failure() {
    let r = decode_u64_result("{\"result\": 18446744073709551616}");
    match r {
        Err(e) => assert!(is_deserialize_failure(&e)),
        Ok(v) => panic!("overflowing number decoded to {}", v),
    }
    let r2 = decode_u64_result("{\"result\": \"12\"}");
    match r2 {
        Err(e) => assert!(is_deserialize_failure(&e)),
        Ok(v) => panic!("string payload decoded to {}", v),
    }
}

#[test]
fn whitespace_and_escapes_are_read() {
    let text = " { \"result\" : \"a\\tb\\u{5c}\" } ".replace("\\u{5c}", "\\\\");
    assert_eq!(decode_string_result(&text), Ok(String::from("a\tb\\")));
    assert_eq!(decode_num_text_result("{\"result\": 3.25e-2}"), Ok(String::from("3.25e-2")));
}

#[test]
fn string_array_payload_decodes_in_order() {
    let r = decode_strings_result("{\"result\": [\"aa\", \"bb\", \"cc\"]}");
    assert_eq!(
        r,
        Ok(vec![String::from("aa"), String::from("bb"), String::from("cc")])
    );
    assert_eq!(decode_strings_result("{\"result\": []}"), Ok(Vec::new()));
}

#[test]
fn network_info_decodes_from_wire_names() {
    let r = decode_network_info_result(
        "{\"result\": {\"version\": 250000, \"networkactive\": true, \"connections\": 8}}",
    );
    assert_eq!(r, Ok(NetworkInfo { version: 250000, network_active: true }));
}

#[test]
fn peer_array_decodes_each_record() {
    let text = "{\"result\": [\
        {\"id\": 1, \"addr\": \"1.2.3.4:8333\", \"network\": \"ipv4\"},\
        {\"id\": 2, \"addr\": \"[::1]:8333\", \"network\": \"ipv6\"}]}";
    let r = decode_peers_result(text);
    assert_eq!(
        r,
        Ok(vec![
            PeerInfo {
                id: 1,
                addr: String::from("1.2.3.4:8333"),
                network: String::from("ipv4"),
            },
            PeerInfo {
                id: 2,
                addr: String::from("[::1]:8333"),
                network: String::from("ipv6"),
            },
        ])
    );
}

#[test]
fn blockchain_info_keeps_the_difficulty_text() {
    let text = "{\"result\": {\
        \"chain\": \"main\", \"blocks\": 800000, \"headers\": 800000,\
        \"bestblockhash\": \"00aa\", \"difficulty\": 53911173001054.59,\
        \"mediantime\": 1700000000, \"initialblockdownload\": false,\
        \"size_on_disk\": 567890123456, \"pruned\": false}}";
    let r = decode_blockchain_info_result(text).unwrap();
    assert_eq!(r.chain, "main");
    assert_eq!(r.blocks, 800000);
    assert_eq!(r.best_block_hash, "00aa");
    assert_eq!(r.difficulty, "53911173001054.59");
    assert_eq!(r.median_time, 1700000000);
    assert!(!r.initial_block_download);
    assert!(!r.pruned);
}

#[test]
fn transaction_decodes_inputs_and_outputs_in_order() {
    let text = "{\"result\": {\"txid\": \"t1\",\
        \"vin\": [{\"coinbase\": \"04ff\"}, {\"txid\": \"t0\", \"vout\": 1}],\
        \"vout\": [\
           {\"value\": 0.5, \"n\": 0, \"scriptPubKey\": {\"address\": \"bc1q\"}},\
           {\"value\": 1.25, \"n\": 1, \"scriptPubKey\": {\"hex\": \"00\"}}]}}";
    let tx = decode_transaction_result(text).unwrap();
    assert_eq!(tx.txid, "t1");
    assert_eq!(tx.vin.len(), 2);
    assert_eq!(tx.vin[0].txid, None);
    assert_eq!(tx.vin[0].vout, None);
    assert_eq!(tx.vin[0].prevout, None);
    assert_eq!(tx.vin[1].txid, Some(String::from("t0")));
    assert_eq!(tx.vin[1].vout, Some(1));
    assert_eq!(tx.vin[1].prevout, None);
    assert_eq!(tx.vout.len(), 2);
    assert_eq!(tx.vout[0].value, "0.5");
    assert_eq!(tx.vout[0].n, Some(0));
    assert_eq!(tx.vout[0].address, Some(String::from("bc1q")));
    assert_eq!(tx.vout[1].value, "1.25");
    assert_eq!(tx.vout[1].address, None);
}

/// A stub answering with a body chosen by the method name in the request.
struct ByBody;

impl HttpPost for ByBody {
    fn post(
        &self,
        _url: &str,
        _username: &str,
        _password: &str,
        _timeout_secs: Option<u64>,
        body: &str,
    ) -> Result<HttpReply, String> {
        let reply = if body.contains("\"getdifficulty\"") {
            "{\"result\": 1.23e5}"
        } else {
            "{\"result\": null}"
        };
        Ok(HttpReply { status: 200, body: String::from(reply) })
    }
}

#[test]
fn difficulty_comes_back_as_number_text() {
    let c = Client::new("http://h", "u", "p");
    assert_eq!(c.get_difficulty(&ByBody), Ok(String::from("1.23e5")));
}
