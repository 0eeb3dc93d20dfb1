use zktls::binance::{latest_purchase, latest_redeem, ts_ms_to_secs, PurchaseRecord, RedeemRecord};

fn purchase(id: &str, ts: &str) -> PurchaseRecord {
    PurchaseRecord {
        id: id.to_string(),
        create_timestamp: ts.to_string(),
        product_name: "USDT".to_string(),
        product_id: "USDT001".to_string(),
        user_id: "1".to_string(),
        asset: "USDT".to_string(),
        lot: "1".to_string(),
        amount: "10".to_string(),
        start_time: None,
        status: "SUCCESS".to_string(),
        lending_type: "DAILY".to_string(),
        kind: "AUTO".to_string(),
        client_purchase_id: None,
        currency_source: "SPOT".to_string(),
        currency_source_detail: None,
    }
}

fn redeem(id: &str, ts: &str) -> RedeemRecord {
    RedeemRecord {
        user_id: "1".to_string(),
        project_id: "USDT001".to_string(),
        lot: None,
        create_timestamp: ts.to_string(),
        amount: "1".to_string(),
        principal: "1".to_string(),
        interest: None,
        payed_principal: None,
        payed_interest: None,
        start_time: None,
        asset: "USDT".to_string(),
        project_name: "USDT".to_string(),
        status: "PAID".to_string(),
        lending_type: "DAILY".to_string(),
        kind: "FAST".to_string(),
        client_redeem_id: None,
        deliver_date: None,
        id: id.to_string(),
        currency_target: "SPOT".to_string(),
    }
}

#[test]
fn millisecond_text_becomes_seconds() {
    assert_eq!(ts_ms_to_secs("1700000000123"), Some(1700000000));
    assert_eq!(ts_ms_to_secs("  1700000000999\n"), Some(1700000000));
    assert_eq!(ts_ms_to_secs("+5000"), Some(5));
    assert_eq!(ts_ms_to_secs("-1500"), Some(-1));
    assert_eq!(ts_ms_to_secs("999"), Some(0));
    assert_eq!(ts_ms_to_secs("abc"), None);
    assert_eq!(ts_ms_to_secs(""), None);
    assert_eq!(ts_ms_to_secs("1.5"), None);
    assert_eq!(ts_ms_to_secs("9223372036854775808"), None);
    assert_eq!(ts_ms_to_secs("-9223372036854775808"), Some(-9223372036854775));
}

#[test]
fn latest_purchase_is_the_largest_timestamp() {
    let list = vec![purchase("a", "1700000000000"), purchase("b", "1700000005000"), purchase("c", "1699999999999")];
    assert_eq!(latest_purchase(&list).unwrap().id, "b");
    assert!(latest_purchase(&[]).is_none());
}

#[test]
fn latest_purchase_takes_the_last_of_equal_timestamps() {
    let list = vec![purchase("a", "5"), purchase("b", "7"), purchase("c", "7"), purchase("d", "6")];
    assert_eq!(latest_purchase(&list).unwrap().id, "c");
}

#[test]
fn latest_purchase_compares_times_as_numbers() {
    let list = vec![purchase("a", "999"), purchase("b", "1000")];
    assert_eq!(latest_purchase(&list).unwrap().id, "b");
    let list = vec![purchase("long", "10000"), purchase("short", "9")];
    assert_eq!(latest_purchase(&list).unwrap().id, "long");
    let list = vec![purchase("padded", " 20 "), purchase("plain", "19")];
    assert_eq!(latest_purchase(&list).unwrap().id, "padded");
}

#[test]
fn latest_purchase_compares_large_times_as_numbers() {
    let list = vec![purchase("a", "9300000000000000000"), purchase("b", "9200000000000000000")];
    assert_eq!(latest_purchase(&list).unwrap().id, "a");
    let list = vec![purchase("a", "99999999999999999999999"), purchase("b", "100000000000000000000000")];
    assert_eq!(latest_purchase(&list).unwrap().id, "b");
    let list = vec![purchase("a", "0010"), purchase("b", "10"), purchase("c", "9")];
    assert_eq!(latest_purchase(&list).unwrap().id, "b");
}

#[test]
fn latest_purchase_puts_other_texts_first_in_string_order() {
    let list = vec![purchase("a", "1"), purchase("b", "soon"), purchase("c", "")];
    assert_eq!(latest_purchase(&list).unwrap().id, "a");
    let list = vec![purchase("x", "soon"), purchase("y", "later"), purchase("z", "-5")];
    assert_eq!(latest_purchase(&list).unwrap().id, "x");
}

#[test]
fn latest_redeem_compares_times_as_numbers() {
    let list = vec![redeem("a", "1000"), redeem("b", "999"), redeem("c", "n/a")];
    assert_eq!(latest_redeem(&list).unwrap().id, "a");
    let list = vec![redeem("a", "9300000000000000000"), redeem("b", "9200000000000000000")];
    assert_eq!(latest_redeem(&list).unwrap().id, "a");
}

#[test]
fn latest_redeem_is_the_largest_timestamp() {
    let list = vec![redeem("a", "3"), redeem("b", "3"), redeem("c", "2")];
    assert_eq!(latest_redeem(&list).unwrap().id, "b");
    assert!(latest_redeem(&[]).is_none());
}
