//! The response envelope codec.
//!
//! Every response is a JSON object `{"result": ...}`. `envelope_of` is the
//! judgement: text that is not a JSON object is not an envelope; an object
//! without a `result` member, or with a null one, has no usable payload;
//! anything else yields the payload. `decode_envelope` computes it, mapping
//! the two failure shapes to `FailedToDeserialize` and `BadResult`.

use vstd::prelude::*;

use crate::error::Error;
use crate::json::{jv_view_members, Json, JsonValue};
use crate::json::jv_view_seq;
use crate::parse::{p_text, parse_json};
use crate::records::{
    as_num_text, as_string, as_u64, block_from_json, block_of, blockchain_info_from_json,
    blockchain_info_of, index_info_from_json, index_info_of, jnum_text, jstr, ju64,
    mining_info_from_json, mining_info_of, network_info_from_json, network_info_of,
    peer_views, peers_from, peers_of, str_views, strings_from, strings_of,
    transaction_from_json, transaction_of, tx_out_set_info_from_json, tx_out_set_info_of,
    Block, BlockchainInfo, IndexInfo, MiningInfo, NetworkInfo, PeerInfo, PeerInfoV,
    Transaction, TxOutSetInfo,
};
use crate::text::str_chars;

verus! {

/// Why a response body yields no payload.
pub enum EnvErr {
    /// The body is not a JSON object.
    NotJson,
    /// The envelope parsed but `result` is absent or null.
    NoResult,
}

/// The first member with the given key, if any.
pub open spec fn obj_lookup(m: Seq<(Seq<char>, Json)>, key: Seq<char>) -> Option<Json>
    decreases m,
{
    if m.len() == 0 {
        None
    } else if m[0].0 == key {
        Some(m[0].1)
    } else {
        obj_lookup(m.drop_first(), key)
    }
}

/// The payload of a response body: the `result` member of the envelope.
pub open spec fn envelope_of(s: Seq<char>) -> Result<Json, EnvErr> {
    match p_text(s) {
        Some(j) => match j {
            Json::Obj(m) => match obj_lookup(m, "result"@) {
                Some(v) => if v is Null {
                    Err(EnvErr::NoResult)
                } else {
                    Ok(v)
                },
                None => Err(EnvErr::NoResult),
            },
            _ => Err(EnvErr::NotJson),
        },
        None => Err(EnvErr::NotJson),
    }
}

/// The error a failed envelope judgement surfaces as.
pub open spec fn is_env_error(e: Error, ee: EnvErr) -> bool {
    match ee {
        EnvErr::NotJson => e matches Error::FailedToDeserialize(m) && m@ == "not a json object"@,
        EnvErr::NoResult => e == Error::BadResult,
    }
}

/// The error for a payload that is not the shape the caller expects.
pub open spec fn is_shape_error(e: Error) -> bool {
    e matches Error::FailedToDeserialize(m) && m@ == "unexpected result shape"@
}

/// Take the member with the given key out of an object: the first one,
/// as `obj_lookup`.
pub fn obj_take(m: Vec<(String, JsonValue)>, key: &str) -> (r: Option<JsonValue>)
    ensures
        match r {
            Some(v) => obj_lookup(jv_view_members(m@), key@) == Some(v@),
            None => obj_lookup(jv_view_members(m@), key@) is None,
        },
{
    let k = String::from_str(key);
    let ghost vm = jv_view_members(m@);
    proof {
        crate::json::lemma_jv_view_members_len(m@);
        assert(vm.subrange(0, vm.len() as int) =~= vm);
    }
    let mut mm = m;
    let mut i: usize = 0;
    while i < mm.len()
        invariant
            0 <= i <= mm@.len(),
            mm@ == m@,
            k@ == key@,
            vm == jv_view_members(m@),
            vm.len() == m@.len(),
            forall|t: int| 0 <= t < m@.len() ==> #[trigger] vm[t] == (m@[t].0@, m@[t].1@),
            obj_lookup(vm, key@) == obj_lookup(vm.subrange(i as int, vm.len() as int), key@),
        decreases mm@.len() - i,
    {
        let ghost suf = vm.subrange(i as int, vm.len() as int);
        assert(suf[0] == (m@[i as int].0@, m@[i as int].1@));
        if mm[i].0.eq(&k) {
            assert(obj_lookup(suf, key@) == Some(m@[i as int].1@));
            let kv = mm.remove(i);
            return Some(kv.1);
        }
        assert(suf.drop_first() =~= vm.subrange(i + 1 as int, vm.len() as int));
        assert(obj_lookup(suf, key@) == obj_lookup(suf.drop_first(), key@));
        i = i + 1;
    }
    proof {
        assert(vm.subrange(vm.len() as int, vm.len() as int) =~= Seq::<(Seq<char>, Json)>::empty());
    }
    None
}

/// Unwrap a response body into its payload: exactly `envelope_of`, with
/// `NotJson` surfacing as `FailedToDeserialize` and `NoResult` as
/// `BadResult`.
pub fn decode_envelope(raw: &str) -> (r: Result<JsonValue, Error>)
    ensures
        match envelope_of(raw@) {
            Ok(payload) => r matches Ok(v) && v@ == payload,
            Err(ee) => r matches Err(e) && is_env_error(e, ee),
        },
{
    let cs = str_chars(raw);
    match parse_json(&cs) {
        Some(v) => {
            match v {
                JsonValue::Obj(m) => {
                    match obj_take(m, "result") {
                        Some(p) => {
                            if let JsonValue::Null = p {
                                Err(Error::BadResult)
                            } else {
                                Ok(p)
                            }
                        },
                        None => Err(Error::BadResult),
                    }
                },
                _ => Err(Error::FailedToDeserialize(String::from_str("not a json object"))),
            }
        },
        None => Err(Error::FailedToDeserialize(String::from_str("not a json object"))),
    }
}

// ----------------------------------------------------------------------------
// Typed decoders: envelope unwrapping composed with one payload reading
// ----------------------------------------------------------------------------

/// The error for a payload of the wrong shape.
fn shape_err() -> (e: Error)
    ensures
        is_shape_error(e),
{
    Error::FailedToDeserialize(String::from_str("unexpected result shape"))
}

/// Decode a response whose payload is an unsigned integer.
pub fn decode_u64_result(raw: &str) -> (r: Result<u64, Error>)
    ensures
        match envelope_of(raw@) {
            Ok(p) => match ju64(p) {
                Some(n) => r == Ok::<u64, Error>(n),
                None => r matches Err(e) && is_shape_error(e),
            },
            Err(ee) => r matches Err(e) && is_env_error(e, ee),
        },
{
    match decode_envelope(raw) {
        Ok(v) => match as_u64(&v) {
            Some(n) => Ok(n),
            None => Err(shape_err()),
        },
        Err(e) => Err(e),
    }
}

/// Decode a response whose payload is a string.
pub fn decode_string_result(raw: &str) -> (r: Result<String, Error>)
    ensures
        match envelope_of(raw@) {
            Ok(p) => match jstr(p) {
                Some(t) => r matches Ok(v) && v@ == t,
                None => r matches Err(e) && is_shape_error(e),
            },
            Err(ee) => r matches Err(e) && is_env_error(e, ee),
        },
{
    match decode_envelope(raw) {
        Ok(v) => match as_string(&v) {
            Some(t) => Ok(t),
            None => Err(shape_err()),
        },
        Err(e) => Err(e),
    }
}

/// Decode a response whose payload is a number, kept as its literal text.
pub fn decode_num_text_result(raw: &str) -> (r: Result<String, Error>)
    ensures
        match envelope_of(raw@) {
            Ok(p) => match jnum_text(p) {
                Some(t) => r matches Ok(v) && v@ == t,
                None => r matches Err(e) && is_shape_error(e),
            },
            Err(ee) => r matches Err(e) && is_env_error(e, ee),
        },
{
    match decode_envelope(raw) {
        Ok(v) => match as_num_text(&v) {
            Some(t) => Ok(t),
            None => Err(shape_err()),
        },
        Err(e) => Err(e),
    }
}

/// The reading of an array payload as strings.
pub open spec fn strings_payload(p: Json) -> Option<Seq<Seq<char>>> {
    match p {
        Json::Arr(a) => strings_of(a),
        _ => None,
    }
}

/// Decode a response whose payload is an array of strings.
pub fn decode_strings_result(raw: &str) -> (r: Result<Vec<String>, Error>)
    ensures
        match envelope_of(raw@) {
            Ok(p) => match strings_payload(p) {
                Some(t) => r matches Ok(v) && str_views(v@) == t,
                None => r matches Err(e) && is_shape_error(e),
            },
            Err(ee) => r matches Err(e) && is_env_error(e, ee),
        },
{
    match decode_envelope(raw) {
        Ok(v) => match v {
            JsonValue::Arr(a) => {
                proof {
                    crate::json::lemma_jv_view_seq_len(a@);
                    assert(jv_view_seq(a@).subrange(0, a@.len() as int) =~= jv_view_seq(a@));
                }
                match strings_from(&a, 0) {
                    Some(xs) => Ok(xs),
                    None => Err(shape_err()),
                }
            },
            _ => Err(shape_err()),
        },
        Err(e) => Err(e),
    }
}

/// The reading of an array payload as peers.
pub open spec fn peers_payload(p: Json) -> Option<Seq<PeerInfoV>> {
    match p {
        Json::Arr(a) => peers_of(a),
        _ => None,
    }
}

/// Decode a response whose payload is an array of peer records.
pub fn decode_peers_result(raw: &str) -> (r: Result<Vec<PeerInfo>, Error>)
    ensures
        match envelope_of(raw@) {
            Ok(p) => match peers_payload(p) {
                Some(t) => r matches Ok(v) && peer_views(v@) == t,
                None => r matches Err(e) && is_shape_error(e),
            },
            Err(ee) => r matches Err(e) && is_env_error(e, ee),
        },
{
    match decode_envelope(raw) {
        Ok(v) => match v {
            JsonValue::Arr(a) => {
                proof {
                    crate::json::lemma_jv_view_seq_len(a@);
                    assert(jv_view_seq(a@).subrange(0, a@.len() as int) =~= jv_view_seq(a@));
                }
                match peers_from(&a, 0) {
                    Some(xs) => Ok(xs),
                    None => Err(shape_err()),
                }
            },
            _ => Err(shape_err()),
        },
        Err(e) => Err(e),
    }
}

/// Decode a response whose payload is a network-info record.
pub fn decode_network_info_result(raw: &str) -> (r: Result<NetworkInfo, Error>)
    ensures
        match envelope_of(raw@) {
            Ok(p) => match network_info_of(p) {
                Some(t) => r == Ok::<NetworkInfo, Error>(t),
                None => r matches Err(e) && is_shape_error(e),
            },
            Err(ee) => r matches Err(e) && is_env_error(e, ee),
        },
{
    match decode_envelope(raw) {
        Ok(v) => match network_info_from_json(&v) {
            Some(t) => Ok(t),
            None => Err(shape_err()),
        },
        Err(e) => Err(e),
    }
}

/// Decode a response whose payload is an index-info record.
pub fn decode_index_info_result(raw: &str) -> (r: Result<IndexInfo, Error>)
    ensures
        match envelope_of(raw@) {
            Ok(p) => match index_info_of(p) {
                Some(t) => r == Ok::<IndexInfo, Error>(t),
                None => r matches Err(e) && is_shape_error(e),
            },
            Err(ee) => r matches Err(e) && is_env_error(e, ee),
        },
{
    match decode_envelope(raw) {
        Ok(v) => match index_info_from_json(&v) {
            Some(t) => Ok(t),
            None => Err(shape_err()),
        },
        Err(e) => Err(e),
    }
}

/// Decode a response whose payload is a chain-state record.
pub fn decode_blockchain_info_result(raw: &str) -> (r: Result<BlockchainInfo, Error>)
    ensures
        match envelope_of(raw@) {
            Ok(p) => match blockchain_info_of(p) {
                Some(t) => r matches Ok(v) && v@ == t,
                None => r matches Err(e) && is_shape_error(e),
            },
            Err(ee) => r matches Err(e) && is_env_error(e, ee),
        },
{
    match decode_envelope(raw) {
        Ok(v) => match blockchain_info_from_json(&v) {
            Some(t) => Ok(t),
            None => Err(shape_err()),
        },
        Err(e) => Err(e),
    }
}

/// Decode a response whose payload is a mining-info record.
pub fn decode_mining_info_result(raw: &str) -> (r: Result<MiningInfo, Error>)
    ensures
        match envelope_of(raw@) {
            Ok(p) => match mining_info_of(p) {
                Some(t) => r matches Ok(v) && v@ == t,
                None => r matches Err(e) && is_shape_error(e),
            },
            Err(ee) => r matches Err(e) && is_env_error(e, ee),
        },
{
    match decode_envelope(raw) {
        Ok(v) => match mining_info_from_json(&v) {
            Some(t) => Ok(t),
            None => Err(shape_err()),
        },
        Err(e) => Err(e),
    }
}

/// Decode a response whose payload is an output-set summary record.
pub fn decode_tx_out_set_info_result(raw: &str) -> (r: Result<TxOutSetInfo, Error>)
    ensures
        match envelope_of(raw@) {
            Ok(p) => match tx_out_set_info_of(p) {
                Some(t) => r matches Ok(v) && v@ == t,
                None => r matches Err(e) && is_shape_error(e),
            },
            Err(ee) => r matches Err(e) && is_env_error(e, ee),
        },
{
    match decode_envelope(raw) {
        Ok(v) => match tx_out_set_info_from_json(&v) {
            Some(t) => Ok(t),
            None => Err(shape_err()),
        },
        Err(e) => Err(e),
    }
}

/// Decode a response whose payload is a transaction record.
pub fn decode_transaction_result(raw: &str) -> (r: Result<Transaction, Error>)
    ensures
        match envelope_of(raw@) {
            Ok(p) => match transaction_of(p) {
                Some(t) => r matches Ok(v) && v@ == t,
                None => r matches Err(e) && is_shape_error(e),
            },
            Err(ee) => r matches Err(e) && is_env_error(e, ee),
        },
{
    match decode_envelope(raw) {
        Ok(v) => match transaction_from_json(&v) {
            Some(t) => Ok(t),
            None => Err(shape_err()),
        },
        Err(e) => Err(e),
    }
}

/// Decode a response whose payload is a block record.
pub fn decode_block_result(raw: &str) -> (r: Result<Block, Error>)
    ensures
        match envelope_of(raw@) {
            Ok(p) => match block_of(p) {
                Some(t) => r matches Ok(v) && v@ == t,
                None => r matches Err(e) && is_shape_error(e),
            },
            Err(ee) => r matches Err(e) && is_env_error(e, ee),
        },
{
    match decode_envelope(raw) {
        Ok(v) => match block_from_json(&v) {
            Some(t) => Ok(t),
            None => Err(shape_err()),
        },
        Err(e) => Err(e),
    }
}

} // verus!
