use zktls::attestation::{
    attestation_config, base_urls, is_known_attestor, is_stable_coin, prepare, read_header,
    stable_coin_label, timestamp_of, Source,
};
use zktls::errors::ZkErrorCode;

fn doc(task: Option<&str>, hash: Option<&str>, attestor: Option<&str>) -> String {
    let mut item = serde_json::Map::new();
    if let Some(t) = task {
        item.insert("taskId".to_string(), serde_json::Value::String(t.to_string()));
    }
    if let Some(h) = hash {
        item.insert("reportTxHash".to_string(), serde_json::Value::String(h.to_string()));
    }
    if let Some(a) = attestor {
        item.insert("attestor".to_string(), serde_json::Value::String(a.to_string()));
    }
    let mut top = serde_json::Map::new();
    top.insert(
        "public_data".to_string(),
        serde_json::Value::Array(vec![serde_json::Value::Object(item)]),
    );
    serde_json::Value::Object(top).to_string()
}

const GOOD: &str = "0xd638c623833aeb02c8049837bdd54e02540e7031";

#[test]
fn attestors_and_stable_coins_are_recognised() {
    assert!(is_known_attestor("0x172f48f7aa734ee18ab7fa3413dc4d974866a3ae"));
    assert!(!is_known_attestor("0x172F48f7aa734ee18ab7fa3413dc4d974866a3ae"));
    assert!(!is_known_attestor("0x0"));
    assert!(is_stable_coin("USDT"));
    assert!(is_stable_coin("DAI"));
    assert!(!is_stable_coin("BTC"));
    assert!(!is_stable_coin("usdt"));
    assert_eq!(stable_coin_label(), "STABLECOIN");
}

#[test]
fn header_fields_are_read_from_public_data() {
    let h = read_header(&doc(Some("t1"), Some("0xabc"), Some(GOOD))).unwrap();
    assert_eq!(h.task_id, "t1");
    assert_eq!(h.report_tx_hash, "0xabc");
    assert_eq!(h.attestor, GOOD);
}

#[test]
fn attestor_is_accepted_in_any_case() {
    let upper = "0xD638C623833AEB02C8049837BDD54E02540E7031";
    let h = read_header(&doc(Some("t"), Some("h"), Some(upper))).unwrap();
    assert_eq!(h.attestor, upper);
}

#[test]
fn header_errors_come_in_order() {
    let code = |d: &str| read_header(d).err().unwrap().icode();
    assert_eq!(code("not json"), 1001);
    assert_eq!(code(&doc(None, None, None)), 1016);
    assert_eq!(code(&doc(Some("t"), None, None)), 1017);
    assert_eq!(code(&doc(Some("t"), Some("h"), None)), 1002);
    assert_eq!(code(&doc(Some("t"), Some("h"), Some("0x1234"))), 1018);
    assert_eq!(code("{\"public_data\":{\"0\":{\"taskId\":\"t\"}}}"), 1016);
    assert_eq!(code("{\"public_data\":[{\"taskId\":5}]}"), 1016);
    let e = read_header(&doc(Some("t"), Some("h"), Some("0x1234"))).err().unwrap();
    assert_eq!(e.msg(), "ZkErrorCode::InvalidAttestor");
}

#[test]
fn config_is_what_serde_json_writes() {
    for source in [Source::BinanceUnified, Source::BinanceSpot, Source::AsterFeature] {
        let urls = base_urls(source);
        let mut m = serde_json::Map::new();
        m.insert("attestor_addr".to_string(), serde_json::Value::String(GOOD.to_string()));
        m.insert(
            "url".to_string(),
            serde_json::Value::Array(urls.iter().map(|u| serde_json::Value::String(u.clone())).collect()),
        );
        let expected = serde_json::Value::Object(m).to_string();
        assert_eq!(attestation_config(GOOD, &urls), expected);
    }
    assert_eq!(
        attestation_config(GOOD, &base_urls(Source::BinanceUnified)),
        "{\"attestor_addr\":\"0xd638c623833aeb02c8049837bdd54e02540e7031\",\"url\":[\"https://papi.binance.com/papi/v1/um/positionRisk\",\"https://papi.binance.com/papi/v1/balance\"]}"
    );
}

#[test]
fn config_escapes_what_json_needs_escaped() {
    let urls = vec!["a\"b".to_string(), "c\\d\n".to_string()];
    assert_eq!(
        attestation_config("x\"y", &urls),
        "{\"attestor_addr\":\"x\\\"y\",\"url\":[\"a\\\"b\",\"c\\\\d\\n\"]}"
    );
}

#[test]
fn parse_failure_carries_serde_json_message() {
    let expected = serde_json::from_str::<serde_json::Value>("not json").err().unwrap().to_string();
    let e = read_header("not json").err().unwrap();
    assert_eq!(e.icode(), 1001);
    assert_eq!(e.msg(), expected);
    let e = prepare(Source::BinanceSpot, "[").err().unwrap();
    assert_eq!(e.msg(), serde_json::from_str::<serde_json::Value>("[").err().unwrap().to_string());
}

#[test]
fn prepare_reads_header_and_writes_config() {
    let p = prepare(Source::AsterSpot, &doc(Some("t"), Some("h"), Some(GOOD))).unwrap();
    assert_eq!(p.header.task_id, "t");
    assert_eq!(
        p.config,
        "{\"attestor_addr\":\"0xd638c623833aeb02c8049837bdd54e02540e7031\",\"url\":[\"https://sapi.asterdex.com/api/v1/account\"]}"
    );
    assert_eq!(prepare(Source::AsterSpot, "[").err().unwrap().icode(), 1001);
}

#[test]
fn request_timestamps() {
    assert_eq!(timestamp_of("https://x/y?recvWindow=5&timestamp=1712345678901&signature=ab").unwrap(), 1712345678901);
    assert_eq!(timestamp_of("https://x/y?timestamp=17").unwrap(), 17);
    assert_eq!(timestamp_of("https://x/y?timestamp=+17&a=b").unwrap(), 17);
    assert_eq!(timestamp_of("https://x/y?timestamp=12timestamp=3").unwrap(), 12);
    assert_eq!(timestamp_of("https://x/y?a=b").err().unwrap().icode(), 1008);
    assert_eq!(timestamp_of("https://x/y?timestamp=&a=b").err().unwrap().icode(), 1008);
    assert_eq!(timestamp_of("https://x/y?timestamp=timestamp=1").err().unwrap().icode(), 1008);
    assert_eq!(timestamp_of("https://x/y?timestamp=12a").err().unwrap().icode(), 1009);
    assert_eq!(timestamp_of("https://x/y?timestamp=-1").err().unwrap().icode(), 1009);
}
