//! What an attestation must hold before its data is used: who attested it, the
//! configuration it is verified against, and the timestamps of its requests.
use vstd::prelude::*;

use crate::errors::{code_name, ZkErrorCode, ZktlsError};
use crate::json::{
    json_accepts, json_check, json_error_text, json_nested_str, json_nested_string, json_object,
    json_object_text,
};
use crate::numeric::{parse_u128, parsed_u128};
use crate::order::views;
use crate::text::{
    ascii_lower, before_first, chars_of, piece_after, piece_before, same_text, second_piece,
    to_ascii_lowercase,
};

verus! {

/// Binance unified-margin position risk endpoint.
pub const RISK_URL: &'static str = "https://papi.binance.com/papi/v1/um/positionRisk";

/// Binance unified-margin balance endpoint.
pub const BALANCE_URL: &'static str = "https://papi.binance.com/papi/v1/balance";

/// Binance spot account endpoint.
pub const SPOT_BALANCE_URL: &'static str = "https://api.binance.com/api/v3/account";

/// Binance futures balance endpoint.
pub const FEATURE_BALANCE_URL: &'static str = "https://fapi.binance.com/fapi/v3/balance";

/// Aster spot account endpoint.
pub const ASTER_SPOT_BALANCE_URL: &'static str = "https://sapi.asterdex.com/api/v1/account";

/// Aster futures balance endpoint.
pub const ASTER_FEATURE_BALANCE_URL: &'static str = "https://fapi.asterdex.com/fapi/v2/balance";

/// The attestor addresses that are trusted, in lower case.
pub open spec fn known_attestors() -> Seq<Seq<char>> {
    seq![
        "0xd638c623833aeb02c8049837bdd54e02540e7031"@,
        "0x3d436d4c130e7e80df715f07b6ca5db927dd45f2"@,
        "0x2f211ef8068ff70c8d851c145baca53ccec0aa07"@,
        "0x6bfa68fab4d930f19c281f5f1f57a2e4ede5a848"@,
        "0x96c3cac72a914eb0e6a1d74cdf2c8d6fa9d02320"@,
        "0x172f48f7aa734ee18ab7fa3413dc4d974866a3ae"@,
    ]
}

/// Whether `addr` is one of the trusted attestor addresses, exactly.
pub fn is_known_attestor(addr: &str) -> (b: bool)
    ensures
        b == known_attestors().contains(addr@),
        b <==> (addr@ == "0xd638c623833aeb02c8049837bdd54e02540e7031"@
            || addr@ == "0x3d436d4c130e7e80df715f07b6ca5db927dd45f2"@
            || addr@ == "0x2f211ef8068ff70c8d851c145baca53ccec0aa07"@
            || addr@ == "0x6bfa68fab4d930f19c281f5f1f57a2e4ede5a848"@
            || addr@ == "0x96c3cac72a914eb0e6a1d74cdf2c8d6fa9d02320"@
            || addr@ == "0x172f48f7aa734ee18ab7fa3413dc4d974866a3ae"@),
{
    let ghost list = known_attestors();
    let b = same_text(addr, "0xd638c623833aeb02c8049837bdd54e02540e7031") || same_text(
        addr,
        "0x3d436d4c130e7e80df715f07b6ca5db927dd45f2",
    ) || same_text(addr, "0x2f211ef8068ff70c8d851c145baca53ccec0aa07") || same_text(
        addr,
        "0x6bfa68fab4d930f19c281f5f1f57a2e4ede5a848",
    ) || same_text(addr, "0x96c3cac72a914eb0e6a1d74cdf2c8d6fa9d02320") || same_text(
        addr,
        "0x172f48f7aa734ee18ab7fa3413dc4d974866a3ae",
    );
    proof {
        if b {
            assert(list.contains(addr@)) by {
                if addr@ == list[0] {
                } else if addr@ == list[1] {
                } else if addr@ == list[2] {
                } else if addr@ == list[3] {
                } else if addr@ == list[4] {
                } else {
                    assert(addr@ == list[5]);
                }
            }
        } else {
            assert(!list.contains(addr@)) by {
                if list.contains(addr@) {
                    let k = choose|k: int| 0 <= k < list.len() && list[k] == addr@;
                    assert(0 <= k < 6);
                }
            }
        }
    }
    b
}

/// The assets whose balances are summed together as stable coins.
pub open spec fn stable_coins() -> Seq<Seq<char>> {
    seq![
        "USDT"@,
        "USDC"@,
        "FDUSD"@,
        "TUSD"@,
        "USDE"@,
        "XUSD"@,
        "USD1"@,
        "BFUSD"@,
        "USDP"@,
        "DAI"@,
    ]
}

/// Whether `asset` is one of the stable coins, exactly.
pub fn is_stable_coin(asset: &str) -> (b: bool)
    ensures
        b == stable_coins().contains(asset@),
        b <==> (asset@ == "USDT"@ || asset@ == "USDC"@ || asset@ == "FDUSD"@ || asset@ == "TUSD"@
            || asset@ == "USDE"@ || asset@ == "XUSD"@ || asset@ == "USD1"@ || asset@ == "BFUSD"@
            || asset@ == "USDP"@ || asset@ == "DAI"@),
{
    let ghost list = stable_coins();
    let b = same_text(asset, "USDT") || same_text(asset, "USDC") || same_text(asset, "FDUSD")
        || same_text(asset, "TUSD") || same_text(asset, "USDE") || same_text(asset, "XUSD")
        || same_text(asset, "USD1") || same_text(asset, "BFUSD") || same_text(asset, "USDP")
        || same_text(asset, "DAI");
    proof {
        if b {
            assert(list.contains(asset@)) by {
                if asset@ == list[0] {
                } else if asset@ == list[1] {
                } else if asset@ == list[2] {
                } else if asset@ == list[3] {
                } else if asset@ == list[4] {
                } else if asset@ == list[5] {
                } else if asset@ == list[6] {
                } else if asset@ == list[7] {
                } else if asset@ == list[8] {
                } else {
                    assert(asset@ == list[9]);
                }
            }
        } else {
            assert(!list.contains(asset@)) by {
                if list.contains(asset@) {
                    let k = choose|k: int| 0 <= k < list.len() && list[k] == asset@;
                    assert(0 <= k < 10);
                }
            }
        }
    }
    b
}

/// The name under which the stable coins' sum is reported.
pub fn stable_coin_label() -> (s: String)
    ensures
        s@ == "STABLECOIN"@,
{
    String::from_str("STABLECOIN")
}

/// The exchange account whose attested responses are checked.
#[derive(Clone, Copy, Debug, PartialEq, Eq, Structural)]
pub enum Source {
    BinanceUnified,
    BinanceSpot,
    BinanceFeature,
    AsterSpot,
    AsterFeature,
}

/// The endpoints an attestation of `source` covers, in the order they are
/// recorded.
pub open spec fn source_urls(source: Source) -> Seq<Seq<char>> {
    match source {
        Source::BinanceUnified => seq![RISK_URL@, BALANCE_URL@],
        Source::BinanceSpot => seq![SPOT_BALANCE_URL@],
        Source::BinanceFeature => seq![FEATURE_BALANCE_URL@],
        Source::AsterSpot => seq![ASTER_SPOT_BALANCE_URL@],
        Source::AsterFeature => seq![ASTER_FEATURE_BALANCE_URL@],
    }
}

/// The endpoints an attestation of `source` covers.
pub fn base_urls(source: Source) -> (v: Vec<String>)
    ensures
        views(v@) == source_urls(source),
{
    let mut v: Vec<String> = Vec::new();
    match source {
        Source::BinanceUnified => {
            v.push(String::from_str(RISK_URL));
            v.push(String::from_str(BALANCE_URL));
        },
        Source::BinanceSpot => {
            v.push(String::from_str(SPOT_BALANCE_URL));
        },
        Source::BinanceFeature => {
            v.push(String::from_str(FEATURE_BALANCE_URL));
        },
        Source::AsterSpot => {
            v.push(String::from_str(ASTER_SPOT_BALANCE_URL));
        },
        Source::AsterFeature => {
            v.push(String::from_str(ASTER_FEATURE_BALANCE_URL));
        },
    }
    assert(views(v@) =~= source_urls(source));
    v
}

/// Who produced an attestation, and for which task.
pub struct AttestationHeader {
    pub task_id: String,
    pub report_tx_hash: String,
    pub attestor: String,
}

/// The string at `public_data[0][key]` of an attestation document.
pub open spec fn public_data_field(document: Seq<char>, key: Seq<char>) -> Option<Seq<char>> {
    json_nested_str(document, "public_data"@, 0, key)
}

/// What reading the header of `document` gives: its task id, report
/// transaction hash and attestor address, or the code of the first check that
/// fails (the document must be JSON, the three fields must be strings, and the
/// attestor in lower case must be a trusted one).
pub open spec fn header_outcome(document: Seq<char>) -> Result<
    (Seq<char>, Seq<char>, Seq<char>),
    ZkErrorCode,
> {
    if !json_accepts(document) {
        Err(ZkErrorCode::ParseAttestationData)
    } else {
        match public_data_field(document, "taskId"@) {
            None => Err(ZkErrorCode::GetTaskIdFail),
            Some(task) => match public_data_field(document, "reportTxHash"@) {
                None => Err(ZkErrorCode::GetReportTxHashFail),
                Some(hash) => match public_data_field(document, "attestor"@) {
                    None => Err(ZkErrorCode::GetAttestorAddressFail),
                    Some(attestor) => {
                        if known_attestors().contains(ascii_lower(attestor)) {
                            Ok((task, hash, attestor))
                        } else {
                            Err(ZkErrorCode::InvalidAttestor)
                        }
                    },
                },
            },
        }
    }
}

/// Reads and checks the header of the attestation `document`.
pub fn read_header(document: &str) -> (r: Result<AttestationHeader, ZktlsError>)
    ensures
        match r {
            Ok(h) => header_outcome(document@) == Ok::<_, ZkErrorCode>(
                (h.task_id@, h.report_tx_hash@, h.attestor@),
            ),
            Err(e) => {
                &&& header_outcome(document@) == Err::<(Seq<char>, Seq<char>, Seq<char>), _>(
                    e.code_of(),
                )
                &&& e.message_of() == if e.code_of() == ZkErrorCode::ParseAttestationData {
                    json_error_text(document@)
                } else {
                    code_name(e.code_of())
                }
            },
        },
{
    match json_check(document) {
        Ok(()) => {},
        Err(message) => {
            return Err(ZktlsError::new(ZkErrorCode::ParseAttestationData, message));
        },
    }
    let task_id = match json_nested_string(document, "public_data", 0, "taskId") {
        Some(t) => t,
        None => {
            return Err(ZktlsError::of(ZkErrorCode::GetTaskIdFail));
        },
    };
    let report_tx_hash = match json_nested_string(document, "public_data", 0, "reportTxHash") {
        Some(t) => t,
        None => {
            return Err(ZktlsError::of(ZkErrorCode::GetReportTxHashFail));
        },
    };
    let attestor = match json_nested_string(document, "public_data", 0, "attestor") {
        Some(t) => t,
        None => {
            return Err(ZktlsError::of(ZkErrorCode::GetAttestorAddressFail));
        },
    };
    let lower = to_ascii_lowercase(attestor.as_str());
    if !is_known_attestor(lower.as_str()) {
        return Err(ZktlsError::of(ZkErrorCode::InvalidAttestor));
    }
    Ok(AttestationHeader { task_id, report_tx_hash, attestor })
}

/// The verification configuration for an attestation: the JSON object, as
/// `serde_json` writes it, whose `attestor_addr` is the attestor and whose
/// `url` lists the endpoints.
pub open spec fn config_text(attestor: Seq<char>, urls: Seq<Seq<char>>) -> Seq<char> {
    json_object_text("attestor_addr"@, attestor, "url"@, urls)
}

/// The verification configuration for `attestor` and `urls`.
pub fn attestation_config(attestor: &str, urls: &Vec<String>) -> (r: String)
    ensures
        r@ == config_text(attestor@, views(urls@)),
{
    json_object("attestor_addr", attestor, "url", urls)
}

/// The timestamp field of a request URL: the text after the first
/// `timestamp=` up to the next `timestamp=` or `&`, if it is not empty.
pub open spec fn timestamp_text(url: Seq<char>) -> Option<Seq<char>> {
    match second_piece(url, "timestamp="@) {
        Some(seg) => {
            let field = before_first(seg, "&"@);
            if field.len() > 0 {
                Some(field)
            } else {
                None
            }
        },
        None => None,
    }
}

/// The timestamp a request URL carries, or why it carries none.
pub open spec fn request_timestamp(url: Seq<char>) -> Result<u128, ZkErrorCode> {
    match timestamp_text(url) {
        None => Err(ZkErrorCode::CannotFoundTimestamp),
        Some(t) => match parsed_u128(t) {
            Some(v) => Ok(v),
            None => Err(ZkErrorCode::ParseTimestampFailed),
        },
    }
}

/// The timestamp of the request `url`.
pub fn timestamp_of(url: &str) -> (r: Result<u128, ZktlsError>)
    ensures
        match r {
            Ok(v) => request_timestamp(url@) == Ok::<u128, ZkErrorCode>(v),
            Err(e) => {
                &&& request_timestamp(url@) == Err::<u128, ZkErrorCode>(e.code_of())
                &&& e.message_of() == code_name(e.code_of())
            },
        },
{
    let u = chars_of(url);
    let key = chars_of("timestamp=");
    let amp = chars_of("&");
    let rest = match piece_after(&u, &key) {
        Some(rest) => rest,
        None => {
            return Err(ZktlsError::of(ZkErrorCode::CannotFoundTimestamp));
        },
    };
    let seg = piece_before(&rest, &key);
    let field = piece_before(&seg, &amp);
    if field.len() == 0 {
        return Err(ZktlsError::of(ZkErrorCode::CannotFoundTimestamp));
    }
    match parse_u128(&field) {
        Some(v) => Ok(v),
        None => Err(ZktlsError::of(ZkErrorCode::ParseTimestampFailed)),
    }
}

/// A checked header and the configuration to verify the attestation with.
pub struct Prepared {
    pub header: AttestationHeader,
    pub config: String,
}

/// Reads the header of the attestation `document` of `source` and writes the
/// configuration that its signature is verified against.
pub fn prepare(source: Source, document: &str) -> (r: Result<Prepared, ZktlsError>)
    ensures
        match r {
            Ok(p) => {
                &&& header_outcome(document@) == Ok::<_, ZkErrorCode>(
                    (p.header.task_id@, p.header.report_tx_hash@, p.header.attestor@),
                )
                &&& p.config@ == config_text(p.header.attestor@, source_urls(source))
            },
            Err(e) => {
                &&& header_outcome(document@) == Err::<(Seq<char>, Seq<char>, Seq<char>), _>(
                    e.code_of(),
                )
                &&& e.message_of() == if e.code_of() == ZkErrorCode::ParseAttestationData {
                    json_error_text(document@)
                } else {
                    code_name(e.code_of())
                }
            },
        },
{
    let header = match read_header(document) {
        Ok(h) => h,
        Err(e) => {
            return Err(e);
        },
    };
    let urls = base_urls(source);
    let config = attestation_config(header.attestor.as_str(), &urls);
    Ok(Prepared { header, config })
}

} // verus!
