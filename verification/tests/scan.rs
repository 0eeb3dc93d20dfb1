use zktls::attestation::{AttestationHeader, Source};
use zktls::errors::ZktlsError;
use zktls::scan::{Action, AttestationMetaStruct, BalanceEntry, Scan, Stage};

fn header() -> AttestationHeader {
    AttestationHeader {
        task_id: "task".to_string(),
        report_tx_hash: "0xhash".to_string(),
        attestor: "0xd638c623833aeb02c8049837bdd54e02540e7031".to_string(),
    }
}

fn strings(v: &[&str]) -> Vec<String> {
    v.iter().map(|s| s.to_string()).collect()
}

/// Runs a walk, answering each query from `answer`; returns the balance rows
/// handed back and the finished record.
fn run(
    source: Source,
    urls: &[&str],
    answer: &dyn Fn(usize, &[String]) -> Vec<String>,
) -> Result<(Vec<(String, String, String)>, AttestationMetaStruct, Vec<(usize, Vec<String>)>), ZktlsError> {
    let mut scan = Scan::start(source, header(), strings(urls), urls.len())?;
    let mut rows = Vec::new();
    let mut queries = Vec::new();
    loop {
        match scan.next_action()? {
            Action::Finished => break,
            Action::Query { message, paths } => {
                queries.push((message, paths.clone()));
                let values = answer(message, &paths);
                let entries: Vec<BalanceEntry> = scan.take_values(values)?;
                let amounts: Vec<(String, String)> =
                    entries.iter().map(|e| (e.first.clone(), e.second.clone())).collect();
                for e in entries {
                    rows.push((e.asset, e.first, e.second));
                }
                if scan.stage() == Stage::AwaitAmounts {
                    scan.take_amounts(amounts);
                }
            }
        }
    }
    Ok((rows, scan.finish(), queries))
}

const RISK: &str = "https://papi.binance.com/papi/v1/um/positionRisk?timestamp=300&signature=x";
const BAL: &str = "https://papi.binance.com/papi/v1/balance?timestamp=200";

#[test]
fn unified_walk_collects_balances_and_earliest_timestamp() {
    let answer = |m: usize, paths: &[String]| -> Vec<String> {
        if paths[0] == "$.[*].symbol" {
            strings(&["\"btcusdt\"", "\"ETHUSDT\"", "\"65000.1\"", "\"3000\""])
        } else {
            assert_eq!(m, 1);
            strings(&["\"usdt\"", "\"10.5\"", "\"-0.5\""])
        }
    };
    let (rows, meta, queries) = run(Source::BinanceUnified, &[RISK, BAL], &answer).unwrap();
    assert_eq!(rows, vec![("USDT".to_string(), "10.5".to_string(), "-0.5".to_string())]);
    assert_eq!(meta.timestamp, 200);
    assert_eq!(meta.task_id, "task");
    assert_eq!(meta.report_tx_hash, "0xhash");
    assert_eq!(meta.base_urls, strings(&["https://papi.binance.com/papi/v1/um/positionRisk", "https://papi.binance.com/papi/v1/balance"]));
    assert_eq!(queries[0], (0, strings(&["$.[*].symbol", "$.[*].entryPrice"])));
    assert_eq!(queries[1], (1, strings(&["$.[*].asset", "$.[*].totalWalletBalance", "$.[*].umUnrealizedPNL"])));
}

#[test]
fn unified_same_positions_twice_is_a_duplicate_account() {
    let answer = |_m: usize, paths: &[String]| -> Vec<String> {
        if paths[0] == "$.[*].symbol" {
            strings(&["A", "B", "1", "2"])
        } else {
            Vec::new()
        }
    };
    let err = run(Source::BinanceUnified, &[RISK, BAL, RISK, BAL], &answer).err().unwrap();
    assert_eq!(err.icode(), 1012);
    assert_eq!(err.msg(), "ZkErrorCode::DuplicateAccount");
}

#[test]
fn unified_positions_in_other_order_are_the_same_account() {
    let answer = |m: usize, paths: &[String]| -> Vec<String> {
        if paths[0] != "$.[*].symbol" {
            Vec::new()
        } else if m == 0 {
            strings(&["A", "B", "1", "2"])
        } else {
            strings(&["B", "A", "2", "1"])
        }
    };
    assert_eq!(run(Source::BinanceUnified, &[RISK, BAL, RISK, BAL], &answer).err().unwrap().icode(), 1012);
}

#[test]
fn unified_empty_positions_are_no_key() {
    let answer = |_m: usize, _paths: &[String]| -> Vec<String> { Vec::new() };
    let (_, meta, _) = run(Source::BinanceUnified, &[RISK, BAL, RISK, BAL], &answer).unwrap();
    assert_eq!(meta.timestamp, 200);
}

#[test]
fn unified_request_errors() {
    let none = |_m: usize, _p: &[String]| -> Vec<String> { Vec::new() };
    let code = |urls: &[&str]| run(Source::BinanceUnified, urls, &none).err().unwrap().icode();
    assert_eq!(code(&[RISK]), 1004);
    assert_eq!(code(&[BAL, RISK]), 1010);
    assert_eq!(code(&[RISK, "https://example.com/?timestamp=1"]), 1011);
    assert_eq!(code(&[RISK, "https://papi.binance.com/papi/v1/balance"]), 1008);
    assert_eq!(code(&[RISK, "https://papi.binance.com/papi/v1/balance?timestamp=x"]), 1009);
    let odd = |_m: usize, _p: &[String]| -> Vec<String> { strings(&["A"]) };
    assert_eq!(run(Source::BinanceUnified, &[RISK, BAL], &odd).err().unwrap().icode(), 1007);
    let four = |_m: usize, p: &[String]| -> Vec<String> { if p.len() == 2 { Vec::new() } else { strings(&["A", "1"]) } };
    assert_eq!(run(Source::BinanceUnified, &[RISK, BAL], &four).err().unwrap().icode(), 1007);
}

#[test]
fn walk_needs_one_response_per_request() {
    let e = Scan::start(Source::BinanceSpot, header(), strings(&["a"]), 2).err().unwrap();
    assert_eq!(e.icode(), 1005);
}

const SPOT: &str = "https://api.binance.com/api/v3/account?timestamp=50";

#[test]
fn spot_walk_keeps_uid_and_balances() {
    let answer = |_m: usize, paths: &[String]| -> Vec<String> {
        if paths[0] == "$.uid" {
            strings(&["12345"])
        } else {
            strings(&["\"btc\"", "\"eth\"", "\"1\"", "\"2\"", "\"0\"", "\"0.5\""])
        }
    };
    let (rows, meta, queries) = run(Source::BinanceSpot, &[SPOT], &answer).unwrap();
    assert_eq!(rows.len(), 2);
    assert_eq!(rows[1], ("ETH".to_string(), "2".to_string(), "0.5".to_string()));
    assert_eq!(meta.timestamp, 50);
    assert_eq!(queries.len(), 2);
    assert_eq!(queries[1].1, strings(&["$.balances[*].asset", "$.balances[*].free", "$.balances[*].locked"]));
}

#[test]
fn spot_same_uid_twice_is_a_duplicate_account() {
    let answer = |_m: usize, paths: &[String]| -> Vec<String> {
        if paths[0] == "$.uid" { strings(&["\"7\""]) } else { Vec::new() }
    };
    assert_eq!(run(Source::BinanceSpot, &[SPOT, SPOT], &answer).err().unwrap().icode(), 1012);
    let two = |_m: usize, paths: &[String]| -> Vec<String> {
        if paths[0] == "$.uid" { strings(&["1", "2"]) } else { Vec::new() }
    };
    assert_eq!(run(Source::BinanceSpot, &[SPOT], &two).err().unwrap().icode(), 1007);
    let none = |_m: usize, _p: &[String]| -> Vec<String> { Vec::new() };
    assert_eq!(run(Source::BinanceSpot, &[RISK], &none).err().unwrap().icode(), 1011);
}

const FEATURE: &str = "https://fapi.binance.com/fapi/v3/balance?timestamp=90";

#[test]
fn feature_walk_skips_empty_responses_without_moving_on() {
    // The first request has no account alias: it is passed over, and the
    // second request is answered from the same response number.
    let calls = std::cell::Cell::new(0usize);
    let answer = |m: usize, paths: &[String]| -> Vec<String> {
        let n = calls.get();
        calls.set(n + 1);
        assert_eq!(m, 0);
        if n == 0 {
            Vec::new()
        } else if paths[0] == "$.[*].accountAlias" {
            strings(&["alias"])
        } else {
            strings(&["usdc", "3", "1"])
        }
    };
    let (rows, meta, queries) = run(Source::BinanceFeature, &[FEATURE, FEATURE], &answer).unwrap();
    assert_eq!(rows.len(), 1);
    assert_eq!(meta.timestamp, 90);
    assert_eq!(queries.len(), 3);
}

#[test]
fn feature_walk_records_balances() {
    let answer = |_m: usize, paths: &[String]| -> Vec<String> {
        if paths[0] == "$.[*].accountAlias" {
            strings(&["\"alias\""])
        } else {
            strings(&["\"usdc\"", "\"3\"", "\"1\""])
        }
    };
    let (rows, meta, _) = run(Source::BinanceFeature, &[FEATURE], &answer).unwrap();
    assert_eq!(rows, vec![("USDC".to_string(), "3".to_string(), "1".to_string())]);
    assert_eq!(meta.timestamp, 90);
    assert_eq!(meta.base_urls, strings(&["https://fapi.binance.com/fapi/v3/balance"]));
}

const ASTER_SPOT: &str = "https://sapi.asterdex.com/api/v1/account?timestamp=11";

#[test]
fn aster_spot_key_is_update_time_and_amounts() {
    let answer = |_m: usize, paths: &[String]| -> Vec<String> {
        if paths[0] == "$.updateTime" {
            strings(&["99"])
        } else {
            strings(&["b", "a", "1", "2", "0", "0"])
        }
    };
    let (rows, meta, _) = run(Source::AsterSpot, &[ASTER_SPOT], &answer).unwrap();
    assert_eq!(rows.len(), 2);
    assert_eq!(meta.timestamp, 11);
    // The same snapshot twice is the same account.
    assert_eq!(run(Source::AsterSpot, &[ASTER_SPOT, ASTER_SPOT], &answer).err().unwrap().icode(), 1012);
    // An update time that is not a single value is refused.
    let bad = |_m: usize, _p: &[String]| -> Vec<String> { Vec::new() };
    assert_eq!(run(Source::AsterSpot, &[ASTER_SPOT], &bad).err().unwrap().icode(), 1007);
}

#[test]
fn aster_spot_different_update_times_are_different_accounts() {
    let answer = |m: usize, paths: &[String]| -> Vec<String> {
        if paths[0] == "$.updateTime" {
            vec![format!("{}", 100 + m)]
        } else {
            strings(&["a", "1", "2"])
        }
    };
    let (_, meta, _) = run(Source::AsterSpot, &[ASTER_SPOT, ASTER_SPOT], &answer).unwrap();
    assert_eq!(meta.timestamp, 11);
}

#[test]
fn aster_feature_walk() {
    let url = "https://fapi.asterdex.com/fapi/v2/balance?timestamp=5&x=1";
    let answer = |_m: usize, paths: &[String]| -> Vec<String> {
        if paths[0] == "$.[*].accountAlias" {
            strings(&["al"])
        } else {
            strings(&["\"usdt\"", "\"1\"", "\"0\""])
        }
    };
    let (rows, meta, _) = run(Source::AsterFeature, &[url], &answer).unwrap();
    assert_eq!(rows.len(), 1);
    assert_eq!(meta.timestamp, 5);
    assert_eq!(run(Source::AsterFeature, &[url, url], &answer).err().unwrap().icode(), 1012);
}

#[test]
fn empty_attestation_finishes_with_no_timestamp() {
    let none = |_m: usize, _p: &[String]| -> Vec<String> { Vec::new() };
    let (_, meta, _) = run(Source::BinanceSpot, &[], &none).unwrap();
    assert_eq!(meta.timestamp, u128::MAX);
    let m = AttestationMetaStruct::default();
    assert_eq!(m.timestamp, 0);
}

#[test]
fn header_record_holds_header_and_endpoints() {
    let m = AttestationMetaStruct::from_header(Source::BinanceUnified, &header());
    assert_eq!(m.task_id, "task");
    assert_eq!(m.report_tx_hash, "0xhash");
    assert_eq!(m.attestor, "0xd638c623833aeb02c8049837bdd54e02540e7031");
    assert_eq!(
        m.base_urls,
        strings(&["https://papi.binance.com/papi/v1/um/positionRisk", "https://papi.binance.com/papi/v1/balance"])
    );
    assert_eq!(m.timestamp, 0);
}

#[test]
fn refused_url_stops_with_its_timestamp_counted() {
    let urls = [SPOT, "https://example.com/?timestamp=7"];
    let mut scan = Scan::start(Source::BinanceSpot, header(), strings(&urls), 2).unwrap();
    assert_eq!(scan.record().timestamp, u128::MAX);
    assert!(matches!(scan.next_action(), Ok(Action::Query { message: 0, .. })));
    assert_eq!(scan.record().timestamp, 50);
    scan.take_values(strings(&["\"42\""])).unwrap();
    assert!(matches!(scan.next_action(), Ok(Action::Query { .. })));
    scan.take_values(Vec::new()).unwrap();
    let e = scan.next_action().err().unwrap();
    assert_eq!(e.icode(), 1011);
    assert!(scan.stage() == Stage::Stopped);
    let m = scan.record();
    assert_eq!(m.timestamp, 7);
    assert_eq!(m.task_id, "task");
    assert_eq!(m.base_urls, strings(&["https://api.binance.com/api/v3/account"]));
}

#[test]
fn missing_timestamp_leaves_the_record_as_it_was() {
    let urls = ["https://api.binance.com/api/v3/account"];
    let mut scan = Scan::start(Source::BinanceSpot, header(), strings(&urls), 1).unwrap();
    let e = scan.next_action().err().unwrap();
    assert_eq!(e.icode(), 1008);
    assert!(scan.stage() == Stage::Idle);
    assert_eq!(scan.record().timestamp, u128::MAX);
}

#[test]
fn duplicate_account_leaves_the_full_record() {
    let urls = [SPOT, "https://api.binance.com/api/v3/account?timestamp=40"];
    let mut scan = Scan::start(Source::BinanceSpot, header(), strings(&urls), 2).unwrap();
    for _ in 0..2 {
        assert!(matches!(scan.next_action(), Ok(Action::Query { .. })));
        scan.take_values(strings(&["\"42\""])).unwrap();
        assert!(matches!(scan.next_action(), Ok(Action::Query { .. })));
        scan.take_values(Vec::new()).unwrap();
    }
    assert_eq!(scan.next_action().err().unwrap().icode(), 1012);
    let m = scan.record();
    assert_eq!(m.timestamp, 40);
    assert_eq!(m.attestor, "0xd638c623833aeb02c8049837bdd54e02540e7031");
}
