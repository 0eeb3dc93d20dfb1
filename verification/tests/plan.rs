use zktls::plan::plan_sources;

#[test]
fn plan_takes_complete_groups() {
    let p = plan_sources("{\"unified\":{\"a\":1},\"spot\":[1, 2],\"feature\":\"x\",\"asterSpot\":{}}").unwrap();
    let (u, s, f) = p.binance.unwrap();
    assert_eq!(u, "{\"a\":1}");
    assert_eq!(s, "[1,2]");
    assert_eq!(f, "\"x\"");
    assert!(p.aster.is_none());
}

#[test]
fn plan_with_aster_only() {
    let p = plan_sources("{\"asterSpot\":{\"k\":true},\"asterFeature\":null,\"spot\":1}").unwrap();
    assert!(p.binance.is_none());
    let (s, f) = p.aster.unwrap();
    assert_eq!(s, "{\"k\":true}");
    assert_eq!(f, "null");
}

#[test]
fn plan_errors() {
    let e = plan_sources("{\"spot\":1}").err().unwrap();
    assert_eq!(e.icode(), 1019);
    assert_eq!(e.msg(), "ZkErrorCode::MissingRequiredData");
    let e = plan_sources("{").err().unwrap();
    assert_eq!(e.icode(), 1001);
    assert_eq!(e.msg(), serde_json::from_str::<serde_json::Value>("{").err().unwrap().to_string());
}
