use logforth::diagnostic::compare_str;
use logforth::diagnostic::DiagnosticMap;
use logforth::diagnostic::ThreadLocalDiagnostic;

fn pairs(m: &DiagnosticMap) -> Vec<(String, String)> {
    (0..m.len())
        .map(|i| {
            let (k, v) = m.entry(i);
            (k.to_string(), v.clone())
        })
        .collect()
}

#[test]
fn insert_keeps_keys_in_order_and_replaces_values() {
    let mut m = DiagnosticMap::new();
    ThreadLocalDiagnostic::insert(&mut m, "user".to_string(), "ann".to_string());
    ThreadLocalDiagnostic::insert(&mut m, "request".to_string(), "r1".to_string());
    ThreadLocalDiagnostic::insert(&mut m, "user".to_string(), "bob".to_string());
    assert_eq!(
        pairs(&m),
        vec![
            ("request".to_string(), "r1".to_string()),
            ("user".to_string(), "bob".to_string()),
        ]
    );
    assert_eq!(m.get("user").map(|s| s.as_str()), Some("bob"));
    assert_eq!(m.get("missing"), None);
}

#[test]
fn remove_drops_only_the_key() {
    let mut m = DiagnosticMap::new();
    ThreadLocalDiagnostic::insert(&mut m, "a".to_string(), "1".to_string());
    ThreadLocalDiagnostic::insert(&mut m, "b".to_string(), "2".to_string());
    ThreadLocalDiagnostic::remove(&mut m, "a");
    ThreadLocalDiagnostic::remove(&mut m, "zzz");
    assert_eq!(pairs(&m), vec![("b".to_string(), "2".to_string())]);
    assert_eq!(m.get("a"), None);
}

#[test]
fn keys_follow_string_order() {
    let mut m = DiagnosticMap::new();
    for k in ["b", "B", "ab", "a", "", "é", "z"] {
        ThreadLocalDiagnostic::insert(&mut m, k.to_string(), k.to_string());
    }
    let keys: Vec<String> = pairs(&m).into_iter().map(|(k, _)| k).collect();
    let mut expected: Vec<String> = ["b", "B", "ab", "a", "", "é", "z"].iter().map(|s| s.to_string()).collect();
    expected.sort();
    assert_eq!(keys, expected);
}

#[test]
fn string_comparison() {
    assert_eq!(compare_str("a", "b"), -1);
    assert_eq!(compare_str("b", "a"), 1);
    assert_eq!(compare_str("ab", "ab"), 0);
    assert_eq!(compare_str("a", "ab"), -1);
    assert_eq!(compare_str("", ""), 0);
    assert_eq!(compare_str("Z", "a"), -1);
}
