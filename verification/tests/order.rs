use zktls::order::{has_duplicate, join, sort_strings, text_lt};

fn strings(v: &[&str]) -> Vec<String> {
    v.iter().map(|s| s.to_string()).collect()
}

#[test]
fn order_matches_str_order() {
    let words = ["", "a", "ab", "b", "B", "é", "aa", "a\u{0}"];
    for x in words {
        for y in words {
            assert_eq!(text_lt(x, y), x < y, "{:?} < {:?}", x, y);
        }
    }
}

#[test]
fn sorting_matches_std_sort() {
    let v = strings(&["ETH:2", "BTC:1", "ETH:10", "ADA:0.3", "BTC:1"]);
    let mut expected = v.clone();
    expected.sort();
    assert_eq!(sort_strings(v), expected);
    assert_eq!(sort_strings(Vec::new()), Vec::<String>::new());
}

#[test]
fn joining_with_separator() {
    assert_eq!(join(&strings(&["a", "b", "c"]), ","), "a,b,c");
    assert_eq!(join(&strings(&["a"]), ","), "a");
    assert_eq!(join(&Vec::new(), ","), "");
}

#[test]
fn duplicates_are_found() {
    assert!(has_duplicate(&strings(&["x", "y", "x"])));
    assert!(!has_duplicate(&strings(&["x", "y", "z"])));
    assert!(!has_duplicate(&Vec::new()));
}
